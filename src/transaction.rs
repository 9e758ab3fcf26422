//! The paste, list and copy operations over the clipboard collaborator's results.

use vstd::prelude::*;
use vstd::string::*;

use crate::codec::{parse, render, show_ct, string_to_ct, ContentType, ContentTypeModel};
use crate::order::{lemma_lt_total, lemma_lt_transitive, seq_lt, str_lt};

verus! {

/// Mathematical value of a [`CliptoolsError`].
pub enum ErrorModel {
    DataNotFound,
    ArgumentError(Seq<char>),
    Utf8Error,
    JsonError(Seq<char>),
    InternalError,
}

/// The failures of a clipboard operation.
#[derive(Debug, Clone)]
pub enum CliptoolsError {
    /// The requested type or text is absent, or the types cannot be listed.
    DataNotFound,
    /// A type name is not recognized, or the command line is incomplete.
    ArgumentError(String),
    /// Binary data was met where text output was required.
    Utf8Error,
    /// The JSON input is malformed or not an object of strings.
    JsonError(String),
    /// Standard input could not be read, or the clipboard refused a write.
    InternalError,
}

impl View for CliptoolsError {
    type V = ErrorModel;

    open spec fn view(&self) -> ErrorModel {
        match self {
            CliptoolsError::DataNotFound => ErrorModel::DataNotFound,
            CliptoolsError::ArgumentError(m) => ErrorModel::ArgumentError(m@),
            CliptoolsError::Utf8Error => ErrorModel::Utf8Error,
            CliptoolsError::JsonError(m) => ErrorModel::JsonError(m@),
            CliptoolsError::InternalError => ErrorModel::InternalError,
        }
    }
}

impl CliptoolsError {
    /// The process exit code for this error: 1 for missing data and clipboard
    /// failures, 2 for user errors.
    pub fn exit_code(&self) -> (r: i32)
        ensures
            r == (match self@ {
                ErrorModel::DataNotFound | ErrorModel::InternalError => 1i32,
                _ => 2i32,
            }),
    {
        match self {
            CliptoolsError::DataNotFound => 1,
            CliptoolsError::InternalError => 1,
            CliptoolsError::ArgumentError(_) => 2,
            CliptoolsError::JsonError(_) => 2,
            CliptoolsError::Utf8Error => 2,
        }
    }
}

/// The content of a payload entry list, later entries overriding earlier ones.
pub open spec fn entries_map(es: Seq<(ContentTypeModel, Seq<u8>)>) -> Map<ContentTypeModel, Seq<u8>>
    decreases es.len(),
{
    if es.len() == 0 {
        Map::empty()
    } else {
        entries_map(es.drop_last()).insert(es.last().0, es.last().1)
    }
}

/// The values of a list of entries.
pub open spec fn entry_models(es: Seq<(ContentType, Vec<u8>)>) -> Seq<(ContentTypeModel, Seq<u8>)> {
    es.map_values(|e: (ContentType, Vec<u8>)| (e.0@, e.1@))
}

/// No content type occurs twice among the entries.
pub open spec fn keys_unique(es: Seq<(ContentTypeModel, Seq<u8>)>) -> bool {
    forall|i: int, j: int| 0 <= i < j < es.len() ==> #[trigger] es[i].0 != #[trigger] es[j].0
}

proof fn lemma_entries_map_update(es: Seq<(ContentTypeModel, Seq<u8>)>, i: int, v: Seq<u8>)
    requires
        keys_unique(es),
        0 <= i < es.len(),
    ensures
        entries_map(es.update(i, (es[i].0, v))) == entries_map(es).insert(es[i].0, v),
    decreases es.len(),
{
    let k = es[i].0;
    let us = es.update(i, (k, v));
    if i == es.len() - 1 {
        assert(us.drop_last() =~= es.drop_last());
        assert(entries_map(us) =~= entries_map(es).insert(k, v));
    } else {
        assert(us.drop_last() =~= es.drop_last().update(i, (k, v)));
        lemma_entries_map_update(es.drop_last(), i, v);
        assert(es.last().0 != k);
        assert(entries_map(us) =~= entries_map(es).insert(k, v));
    }
}

proof fn lemma_entries_map_lookup(es: Seq<(ContentTypeModel, Seq<u8>)>, i: int)
    requires
        keys_unique(es),
        0 <= i < es.len(),
    ensures
        entries_map(es).contains_key(es[i].0),
        entries_map(es)[es[i].0] == es[i].1,
    decreases es.len(),
{
    if i < es.len() - 1 {
        lemma_entries_map_lookup(es.drop_last(), i);
        assert(es.last().0 != es[i].0);
    }
}

proof fn lemma_entries_map_absent(es: Seq<(ContentTypeModel, Seq<u8>)>, k: ContentTypeModel)
    requires
        forall|i: int| 0 <= i < es.len() ==> #[trigger] es[i].0 != k,
    ensures
        !entries_map(es).contains_key(k),
    decreases es.len(),
{
    if es.len() > 0 {
        assert(es.last().0 != k);
        lemma_entries_map_absent(es.drop_last(), k);
    }
}

/// The data written to the clipboard in one transaction: at most one byte
/// sequence per content type.
#[derive(Debug)]
pub struct ClipboardPayload {
    entries: Vec<(ContentType, Vec<u8>)>,
}

impl View for ClipboardPayload {
    type V = Map<ContentTypeModel, Seq<u8>>;

    closed spec fn view(&self) -> Map<ContentTypeModel, Seq<u8>> {
        entries_map(entry_models(self.entries@))
    }
}

impl ClipboardPayload {
    /// Each content type has one entry at most.
    pub closed spec fn wf(&self) -> bool {
        keys_unique(entry_models(self.entries@))
    }

    /// An empty payload.
    pub fn new() -> (r: ClipboardPayload)
        ensures
            r.wf(),
            r@ == Map::<ContentTypeModel, Seq<u8>>::empty(),
    {
        let r = ClipboardPayload { entries: Vec::new() };
        assert(entry_models(r.entries@) =~= Seq::empty());
        r
    }

    /// Sets the bytes held under `ct`, replacing any held before.
    pub fn set(&mut self, ct: ContentType, bytes: Vec<u8>)
        requires
            old(self).wf(),
        ensures
            final(self).wf(),
            final(self)@ == old(self)@.insert(ct@, bytes@),
    {
        let n = self.entries.len();
        let mut i: usize = 0;
        while i < n
            invariant
                n == self.entries@.len(),
                self.entries@ == old(self).entries@,
                self.wf(),
                0 <= i <= n,
                forall|j: int| 0 <= j < i ==> (#[trigger] self.entries@[j]).0@ != ct@,
            decreases n - i,
        {
            if self.entries[i].0 == ct {
                let ghost before = self.entries@;
                proof {
                    lemma_entries_map_update(entry_models(before), i as int, bytes@);
                }
                self.entries[i] = (ct, bytes);
                proof {
                    let ms = entry_models(self.entries@);
                    let old_ms = entry_models(before);
                    assert(ms =~= old_ms.update(i as int, (old_ms[i as int].0, ms[i as int].1)));
                    assert(keys_unique(ms)) by {
                        assert forall|a: int, b: int| 0 <= a < b < ms.len() implies #[trigger] ms[a].0
                            != #[trigger] ms[b].0 by {
                            assert(old_ms[a].0 != old_ms[b].0);
                        }
                    }
                }
                return;
            }
            i += 1;
        }
        let ghost before = self.entries@;
        self.entries.push((ct, bytes));
        proof {
            let ms = entry_models(self.entries@);
            let old_ms = entry_models(before);
            assert(ms.drop_last() =~= old_ms);
            assert(ms.last() == (ct@, bytes@));
            assert forall|j: int| 0 <= j < n implies #[trigger] entry_models(before)[j].0 != ct@ by {
                assert(before[j].0@ != ct@);
            }
            assert(keys_unique(ms)) by {
                assert forall|a: int, b: int| 0 <= a < b < ms.len() implies #[trigger] ms[a].0
                    != #[trigger] ms[b].0 by {
                    if b < n {
                        assert(old_ms[a].0 != old_ms[b].0);
                    } else {
                        assert(old_ms[a].0 != ct@);
                    }
                }
            }
        }
    }

    /// The entries of the payload, one per content type.
    pub fn entries(&self) -> (r: &Vec<(ContentType, Vec<u8>)>)
        requires
            self.wf(),
        ensures
            keys_unique(entry_models(r@)),
            entries_map(entry_models(r@)) == self@,
    {
        &self.entries
    }

    /// The number of content types in the payload.
    pub fn len(&self) -> (r: usize)
        requires
            self.wf(),
        ensures
            r == self@.len(),
    {
        proof {
            self.lemma_len();
        }
        self.entries.len()
    }

    proof fn lemma_len(&self)
        requires
            self.wf(),
        ensures
            self@.len() == self.entries@.len(),
            self@.dom().finite(),
    {
        lemma_entries_map_len(entry_models(self.entries@));
    }

    /// The bytes held under `ct`, if any.
    pub fn get(&self, ct: &ContentType) -> (r: Option<&Vec<u8>>)
        requires
            self.wf(),
        ensures
            r is None <==> !self@.contains_key(ct@),
            r matches Some(b) ==> self@[ct@] == b@,
    {
        let n = self.entries.len();
        let mut i: usize = 0;
        while i < n
            invariant
                n == self.entries@.len(),
                self.wf(),
                0 <= i <= n,
                forall|j: int| 0 <= j < i ==> (#[trigger] self.entries@[j]).0@ != ct@,
            decreases n - i,
        {
            if self.entries[i].0 == *ct {
                proof {
                    lemma_entries_map_lookup(entry_models(self.entries@), i as int);
                }
                return Some(&self.entries[i].1);
            }
            i += 1;
        }
        proof {
            let es = entry_models(self.entries@);
            assert forall|j: int| 0 <= j < n implies #[trigger] es[j].0 != ct@ by {
                assert(self.entries@[j].0@ != ct@);
            }
            lemma_entries_map_absent(es, ct@);
        }
        None
    }
}

proof fn lemma_entries_map_len(es: Seq<(ContentTypeModel, Seq<u8>)>)
    requires
        keys_unique(es),
    ensures
        entries_map(es).dom().finite(),
        entries_map(es).len() == es.len(),
    decreases es.len(),
{
    if es.len() > 0 {
        let rest = es.drop_last();
        lemma_entries_map_len(rest);
        assert forall|i: int| 0 <= i < rest.len() implies #[trigger] rest[i].0 != es.last().0 by {
            assert(es[i].0 != es[es.len() - 1].0);
        }
        lemma_entries_map_absent(rest, es.last().0);
    }
}

/// When raw binary data may be written to standard output.
#[derive(Clone, Copy, Debug, PartialEq, Eq, Structural)]
pub enum BinaryPolicy {
    /// Allowed only when standard output is not an interactive terminal.
    Auto,
    Always,
    Never,
}

/// Whether binary output is allowed under `policy`.
pub fn binary_allowed(policy: BinaryPolicy, stdout_is_terminal: bool) -> (r: bool)
    ensures
        r == (match policy {
            BinaryPolicy::Auto => !stdout_is_terminal,
            BinaryPolicy::Always => true,
            BinaryPolicy::Never => false,
        }),
{
    match policy {
        BinaryPolicy::Auto => !stdout_is_terminal,
        BinaryPolicy::Always => true,
        BinaryPolicy::Never => false,
    }
}

/// The message of the error for an unrecognized type name given as an option.
pub open spec fn unknown_type_message(name: Seq<char>) -> Seq<char> {
    "unknown type: "@ + name + "; try using --system-type to specify a system native type"@
}

/// The content type requested by a type name or a native type name; the
/// type name wins when both are given.
pub open spec fn requested_type(portable_type: Option<Seq<char>>, system_type: Option<Seq<char>>) -> Result<
    Option<ContentTypeModel>,
    ErrorModel,
> {
    match portable_type {
        Some(t) => match parse(t) {
            Some(ct) => Ok(Some(ct)),
            None => Err(ErrorModel::ArgumentError(unknown_type_message(t))),
        },
        None => match system_type {
            Some(n) => Ok(Some(ContentTypeModel::Custom(n))),
            None => Ok(None),
        },
    }
}

/// The view of an optional string.
pub open spec fn opt_view(o: Option<String>) -> Option<Seq<char>> {
    match o {
        Some(s) => Some(s@),
        None => None,
    }
}

/// `r` is the value of `model`.
pub open spec fn type_result_is(
    r: Result<Option<ContentType>, CliptoolsError>,
    model: Result<Option<ContentTypeModel>, ErrorModel>,
) -> bool {
    match r {
        Ok(Some(ct)) => model == Ok::<Option<ContentTypeModel>, ErrorModel>(Some(ct@)),
        Ok(None) => model == Ok::<Option<ContentTypeModel>, ErrorModel>(None),
        Err(e) => model == Err::<Option<ContentTypeModel>, ErrorModel>(e@),
    }
}

/// Resolves the content type that a request names: through the type codec
/// for a type name, verbatim as a native type for a system type name.
pub fn resolve_type(portable_type: &Option<String>, system_type: &Option<String>) -> (r: Result<
    Option<ContentType>,
    CliptoolsError,
>)
    ensures
        type_result_is(r, requested_type(opt_view(*portable_type), opt_view(*system_type))),
{
    match portable_type {
        Some(t) => match string_to_ct(t.as_str()) {
            Some(ct) => Ok(Some(ct)),
            None => {
                let m = String::from_str("unknown type: ").concat(t.as_str()).concat(
                    "; try using --system-type to specify a system native type",
                );
                Err(CliptoolsError::ArgumentError(m))
            },
        },
        None => match system_type {
            Some(n) => Ok(Some(ContentType::Custom(n.clone()))),
            None => Ok(None),
        },
    }
}

/// A request to print clipboard content.
#[derive(Debug)]
pub struct PasteRequest {
    pub portable_type: Option<String>,
    pub system_type: Option<String>,
    pub binary: BinaryPolicy,
}

/// The content type that a paste reads, or `None` for the clipboard's text.
pub fn paste_source(request: &PasteRequest) -> (r: Result<Option<ContentType>, CliptoolsError>)
    ensures
        type_result_is(
            r,
            requested_type(opt_view(request.portable_type), opt_view(request.system_type)),
        ),
{
    resolve_type(&request.portable_type, &request.system_type)
}

/// Relies on std::str::from_utf8, which succeeds exactly on well-formed UTF-8.
#[verifier::external_body]
fn is_utf8(bytes: &[u8]) -> (r: bool)
    ensures
        r == vstd::utf8::valid_utf8(bytes@),
{
    std::str::from_utf8(bytes).is_ok()
}

/// The bytes that a paste prints, given what the clipboard held for the
/// source (`None` when it held nothing there). Content read under an explicit
/// type must be text unless binary output is allowed; the clipboard's text
/// needs no check.
pub fn paste_output(source: &Option<ContentType>, fetched: Option<Vec<u8>>, binary_allowed: bool) -> (r:
    Result<Vec<u8>, CliptoolsError>)
    ensures
        fetched is None ==> (r matches Err(e) && e@ == ErrorModel::DataNotFound),
        fetched matches Some(b) ==> (if source is Some && !binary_allowed
            && !vstd::utf8::valid_utf8(b@) {
            (r matches Err(e) && e@ == ErrorModel::Utf8Error)
        } else {
            (r matches Ok(out) && out@ == b@)
        }),
{
    match fetched {
        None => Err(CliptoolsError::DataNotFound),
        Some(bytes) => {
            if source.is_some() && !binary_allowed && !is_utf8(bytes.as_slice()) {
                Err(CliptoolsError::Utf8Error)
            } else {
                Ok(bytes)
            }
        },
    }
}

/// The views of a list of strings.
pub open spec fn names(v: Seq<String>) -> Seq<Seq<char>> {
    v.map_values(|s: String| s@)
}

/// Each name comes strictly before the next: sorted, without repeats.
pub open spec fn strictly_sorted(s: Seq<Seq<char>>) -> bool {
    forall|i: int, j: int| 0 <= i < j < s.len() ==> seq_lt(#[trigger] s[i], #[trigger] s[j])
}

/// Adds `x` to a sorted list of distinct names, unless it is there already.
fn insert_sorted(v: &mut Vec<String>, x: String)
    requires
        strictly_sorted(names(old(v)@)),
    ensures
        strictly_sorted(names(final(v)@)),
        forall|y: Seq<char>|
            names(final(v)@).contains(y) <==> (names(old(v)@).contains(y) || y == x@),
{
    let n = v.len();
    let mut i: usize = 0;
    while i < n
        invariant
            n == v@.len(),
            v@ == old(v)@,
            strictly_sorted(names(old(v)@)),
            0 <= i <= n,
            forall|k: int| 0 <= k < i ==> seq_lt(#[trigger] names(v@)[k], x@),
        ensures
            i < n ==> seq_lt(x@, names(v@)[i as int]),
            v@ == old(v)@,
            0 <= i <= n,
            forall|k: int| 0 <= k < i ==> seq_lt(#[trigger] names(v@)[k], x@),
        decreases n - i,
    {
        if v[i] == x {
            proof {
                assert(names(v@)[i as int] == x@);
            }
            return;
        }
        if str_lt(x.as_str(), v[i].as_str()) {
            proof {
                assert(names(v@)[i as int] == v@[i as int]@);
            }
            break;
        }
        proof {
            lemma_lt_total(x@, v@[i as int]@);
            assert(names(v@)[i as int] == v@[i as int]@);
        }
        i += 1;
    }
    let ghost before = names(v@);
    v.insert(i, x);
    proof {
        let after = names(v@);
        assert(after =~= before.insert(i as int, x@));
        assert forall|a: int, b: int| 0 <= a < b < after.len() implies seq_lt(
            #[trigger] after[a],
            #[trigger] after[b],
        ) by {
            if b < i {
            } else if b == i {
            } else if a < i {
                lemma_lt_transitive(after[a], x@, before[i as int]);
                if b - 1 > i {
                    lemma_lt_transitive(after[a], before[i as int], before[b - 1]);
                }
            } else if a == i {
                if b - 1 > i {
                    lemma_lt_transitive(x@, before[i as int], before[b - 1]);
                }
            } else {
            }
        }
        assert forall|y: Seq<char>| after.contains(y) <==> (before.contains(y) || y == x@) by {
            if after.contains(y) {
                let k = choose|k: int| 0 <= k < after.len() && after[k] == y;
                if k < i {
                    assert(before[k] == y);
                } else if k > i {
                    assert(before[k - 1] == y);
                }
            }
            if before.contains(y) {
                let k = choose|k: int| 0 <= k < before.len() && before[k] == y;
                if k < i {
                    assert(after[k] == y);
                } else {
                    assert(after[k + 1] == y);
                }
            }
            if y == x@ {
                assert(after[i as int] == y);
            }
        }
    }
}

/// The listing of a clipboard whose types were enumerated as `types`: each
/// native name with the content type it normalizes to.
pub open spec fn listing_ok(types: Seq<(String, ContentType)>, system: bool, out: Seq<Seq<char>>) -> bool {
    if system {
        out == types.map_values(|t: (String, ContentType)| t.0@)
    } else {
        &&& strictly_sorted(out)
        &&& forall|y: Seq<char>|
            out.contains(y) <==> exists|i: int| 0 <= i < types.len() && y == render(#[trigger] types[i].1@)
    }
}

/// The type names of the clipboard's content. With `system`, the native
/// names as enumerated; otherwise the names of the normalized content types,
/// sorted and without repeats. `None` stands for an enumeration that failed.
pub fn list(types: Option<Vec<(String, ContentType)>>, system: bool) -> (r: Result<Vec<String>, CliptoolsError>)
    ensures
        types is None ==> (r matches Err(e) && e@ == ErrorModel::DataNotFound),
        types matches Some(ts) ==> (r matches Ok(out) && listing_ok(ts@, system, names(out@))),
{
    let types = match types {
        None => {
            return Err(CliptoolsError::DataNotFound);
        },
        Some(ts) => ts,
    };
    let n = types.len();
    let mut out: Vec<String> = Vec::new();
    let mut i: usize = 0;
    if system {
        while i < n
            invariant
                n == types@.len(),
                0 <= i <= n,
                names(out@) =~= types@.subrange(0, i as int).map_values(
                    |t: (String, ContentType)| t.0@,
                ),
            decreases n - i,
        {
            let ghost prev = names(out@);
            out.push(types[i].0.clone());
            proof {
                assert(names(out@) =~= prev.push(types@[i as int].0@));
                assert(types@.subrange(0, i + 1) =~= types@.subrange(0, i as int).push(types@[i as int]));
            }
            i += 1;
        }
        assert(types@.subrange(0, n as int) =~= types@);
    } else {
        while i < n
            invariant
                n == types@.len(),
                0 <= i <= n,
                strictly_sorted(names(out@)),
                forall|y: Seq<char>|
                    names(out@).contains(y) <==> exists|k: int|
                        0 <= k < i && y == render(#[trigger] types@[k].1@),
            decreases n - i,
        {
            let name = show_ct(&types[i].1);
            let ghost prev = names(out@);
            insert_sorted(&mut out, name);
            proof {
                assert forall|y: Seq<char>|
                    names(out@).contains(y) <==> exists|k: int|
                        0 <= k < i + 1 && y == render(#[trigger] types@[k].1@) by {
                    if y == render(types@[i as int].1@) {
                        assert(0 <= i < i + 1);
                    }
                    if exists|k: int| 0 <= k < i + 1 && y == render(#[trigger] types@[k].1@) {
                        let k = choose|k: int| 0 <= k < i + 1 && y == render(#[trigger] types@[k].1@);
                        if k < i {
                            assert(prev.contains(y));
                        }
                    }
                }
            }
            i += 1;
        }
    }
    Ok(out)
}

#[verifier::external_type_specification]
#[verifier::external_body]
pub struct ExJsonError(serde_json::Error);

/// The members of the JSON document held in `text`, in the order serde_json's
/// map keeps them, each value given as its string if it is one: `None` when
/// `text` is no JSON document, `Some(None)` when the document is no object.
pub uninterp spec fn json_object_members(text: Seq<u8>) -> Option<Option<Seq<(Seq<char>, Option<Seq<char>>)>>>;

/// The views of a list of JSON object members.
pub open spec fn member_views(ms: Seq<(String, Option<String>)>) -> Seq<(Seq<char>, Option<Seq<char>>)> {
    ms.map_values(|m: (String, Option<String>)| (m.0@, opt_view(m.1)))
}

/// Relies on serde_json::from_slice to read a JSON document, on
/// Value::as_object to take it as an object, on Map::iter for its members and
/// on Value::as_str for the string members.
#[verifier::external_body]
fn read_json_object(text: &[u8]) -> (r: Result<Option<Vec<(String, Option<String>)>>, serde_json::Error>)
    ensures
        r is Err <==> json_object_members(text@) is None,
        r matches Ok(None) ==> json_object_members(text@) == Some(
            None::<Seq<(Seq<char>, Option<Seq<char>>)>>,
        ),
        r matches Ok(Some(ms)) ==> json_object_members(text@) == Some(Some(member_views(ms@))),
{
    let value: serde_json::Value = serde_json::from_slice(text)?;
    Ok(value.as_object().map(
        |members| members.iter().map(|(k, v)| (k.clone(), v.as_str().map(String::from))).collect(),
    ))
}

/// The payload that JSON object members describe: each key a type name, each
/// value a string whose UTF-8 bytes are stored under that type, a later
/// member overriding an earlier one of the same type. The first member with
/// an unknown type name or a value that is no string gives the error.
pub open spec fn members_payload(ms: Seq<(Seq<char>, Option<Seq<char>>)>) -> Result<
    Map<ContentTypeModel, Seq<u8>>,
    ErrorModel,
>
    decreases ms.len(),
{
    if ms.len() == 0 {
        Ok(Map::empty())
    } else {
        match members_payload(ms.drop_last()) {
            Err(e) => Err(e),
            Ok(m) => match parse(ms.last().0) {
                None => Err(ErrorModel::ArgumentError("unknown type: "@ + ms.last().0)),
                Some(ct) => match ms.last().1 {
                    None => Err(ErrorModel::JsonError("expected a string under key "@ + ms.last().0)),
                    Some(text) => Ok(m.insert(ct, vstd::utf8::encode_utf8(text))),
                },
            },
        }
    }
}

/// The payload that a JSON document describes (see [`members_payload`]).
pub open spec fn json_payload(doc: Option<Option<Seq<(Seq<char>, Option<Seq<char>>)>>>) -> Result<
    Map<ContentTypeModel, Seq<u8>>,
    ErrorModel,
> {
    match doc {
        None => Err(ErrorModel::JsonError("cannot read JSON input"@)),
        Some(None) => Err(ErrorModel::JsonError("expected a JSON object at top level"@)),
        Some(Some(ms)) => members_payload(ms),
    }
}

/// `r` is the value of `model`, and a payload in it is well formed.
pub open spec fn payload_result_is(
    r: Result<ClipboardPayload, CliptoolsError>,
    model: Result<Map<ContentTypeModel, Seq<u8>>, ErrorModel>,
) -> bool {
    match r {
        Ok(p) => p.wf() && model == Ok::<Map<ContentTypeModel, Seq<u8>>, ErrorModel>(p@),
        Err(e) => model == Err::<Map<ContentTypeModel, Seq<u8>>, ErrorModel>(e@),
    }
}

proof fn lemma_members_error_persists(ms: Seq<(Seq<char>, Option<Seq<char>>)>, k: int)
    requires
        0 <= k <= ms.len(),
        members_payload(ms.subrange(0, k)) is Err,
    ensures
        members_payload(ms) == members_payload(ms.subrange(0, k)),
    decreases ms.len() - k,
{
    if k == ms.len() {
        assert(ms.subrange(0, k) =~= ms);
    } else {
        let shorter = ms.drop_last();
        assert(shorter.subrange(0, k) =~= ms.subrange(0, k));
        lemma_members_error_persists(shorter, k);
    }
}

/// The payload that JSON object members describe, as read from a document.
pub fn payload_from_members(members: &Vec<(String, Option<String>)>) -> (r: Result<
    ClipboardPayload,
    CliptoolsError,
>)
    ensures
        payload_result_is(r, members_payload(member_views(members@))),
{
    let ghost ms = member_views(members@);
    let n = members.len();
    let mut payload = ClipboardPayload::new();
    let mut i: usize = 0;
    assert(ms.subrange(0, 0) =~= Seq::<(Seq<char>, Option<Seq<char>>)>::empty());
    while i < n
        invariant
            n == members@.len(),
            ms == member_views(members@),
            0 <= i <= n,
            payload.wf(),
            members_payload(ms.subrange(0, i as int)) == Ok::<
                Map<ContentTypeModel, Seq<u8>>,
                ErrorModel,
            >(payload@),
        decreases n - i,
    {
        let key = &members[i].0;
        proof {
            assert(ms.subrange(0, i + 1).drop_last() =~= ms.subrange(0, i as int));
            assert(ms.subrange(0, i + 1).last() == ms[i as int]);
        }
        let ct = match string_to_ct(key.as_str()) {
            Some(ct) => ct,
            None => {
                let m = String::from_str("unknown type: ").concat(key.as_str());
                proof {
                    lemma_members_error_persists(ms, i + 1);
                }
                return Err(CliptoolsError::ArgumentError(m));
            },
        };
        match &members[i].1 {
            None => {
                let m = String::from_str("expected a string under key ").concat(key.as_str());
                proof {
                    lemma_members_error_persists(ms, i + 1);
                }
                return Err(CliptoolsError::JsonError(m));
            },
            Some(text) => {
                let bytes = text.as_str().as_bytes_vec();
                payload.set(ct, bytes);
            },
        }
        i += 1;
    }
    assert(ms.subrange(0, n as int) =~= ms);
    Ok(payload)
}

/// The payload that the JSON document in `text` describes.
pub fn payload_from_json(text: &[u8]) -> (r: Result<ClipboardPayload, CliptoolsError>)
    ensures
        payload_result_is(r, json_payload(json_object_members(text@))),
{
    match read_json_object(text) {
        Err(_) => Err(CliptoolsError::JsonError(String::from_str("cannot read JSON input"))),
        Ok(None) => Err(
            CliptoolsError::JsonError(String::from_str("expected a JSON object at top level")),
        ),
        Ok(Some(members)) => payload_from_members(&members),
    }
}

/// A request to write standard input to the clipboard.
#[derive(Debug)]
pub struct CopyRequest {
    pub portable_type: Option<String>,
    pub system_type: Option<String>,
    /// Standard input is a JSON object from type names to contents.
    pub json: bool,
}

/// The payload that a copy writes, given the standard input (`None` when it
/// could not be read). In JSON mode it is the payload the document describes;
/// otherwise the whole input stored under the requested type, `text` by default.
pub open spec fn copy_payload(
    portable_type: Option<Seq<char>>,
    system_type: Option<Seq<char>>,
    json: bool,
    input: Option<Seq<u8>>,
) -> Result<Map<ContentTypeModel, Seq<u8>>, ErrorModel> {
    if json {
        match input {
            None => Err(ErrorModel::JsonError("cannot read JSON input"@)),
            Some(text) => json_payload(json_object_members(text)),
        }
    } else {
        match requested_type(portable_type, system_type) {
            Err(e) => Err(e),
            Ok(requested) => {
                let target = match requested {
                    Some(ct) => ct,
                    None => ContentTypeModel::Text,
                };
                match input {
                    None => Err(ErrorModel::InternalError),
                    Some(bytes) => Ok(Map::empty().insert(target, bytes)),
                }
            },
        }
    }
}

/// The payload that a copy request writes to the clipboard.
pub fn copy(request: &CopyRequest, input: Option<Vec<u8>>) -> (r: Result<ClipboardPayload, CliptoolsError>)
    ensures
        payload_result_is(
            r,
            copy_payload(
                opt_view(request.portable_type),
                opt_view(request.system_type),
                request.json,
                match input {
                    Some(b) => Some(b@),
                    None => None,
                },
            ),
        ),
{
    if request.json {
        return match input {
            None => Err(CliptoolsError::JsonError(String::from_str("cannot read JSON input"))),
            Some(text) => payload_from_json(text.as_slice()),
        };
    }
    let target = match resolve_type(&request.portable_type, &request.system_type) {
        Err(e) => {
            return Err(e);
        },
        Ok(Some(ct)) => ct,
        Ok(None) => ContentType::Text,
    };
    match input {
        None => Err(CliptoolsError::InternalError),
        Some(bytes) => {
            let mut payload = ClipboardPayload::new();
            payload.set(target, bytes);
            Ok(payload)
        },
    }
}

} // verus!
