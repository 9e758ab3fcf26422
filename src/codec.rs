//! Mapping between user-facing type names and clipboard content types.

use vstd::prelude::*;
use vstd::string::*;

verus! {

/// Mathematical value of a [`ContentType`].
pub enum ContentTypeModel {
    Url,
    Html,
    Pdf,
    Png,
    Rtf,
    Text,
    Custom(Seq<char>),
}

/// A clipboard content type: one of the well-known flavors, or a
/// platform-native identifier.
#[derive(Debug, Clone, Eq, Hash, PartialOrd, Ord)]
pub enum ContentType {
    Url,
    Html,
    Pdf,
    Png,
    Rtf,
    Text,
    Custom(String),
}

impl View for ContentType {
    type V = ContentTypeModel;

    open spec fn view(&self) -> ContentTypeModel {
        match self {
            ContentType::Url => ContentTypeModel::Url,
            ContentType::Html => ContentTypeModel::Html,
            ContentType::Pdf => ContentTypeModel::Pdf,
            ContentType::Png => ContentTypeModel::Png,
            ContentType::Rtf => ContentTypeModel::Rtf,
            ContentType::Text => ContentTypeModel::Text,
            ContentType::Custom(name) => ContentTypeModel::Custom(name@),
        }
    }
}

impl PartialEq for ContentType {
    fn eq(&self, other: &ContentType) -> (r: bool) {
        match (self, other) {
            (ContentType::Custom(a), ContentType::Custom(b)) => *a == *b,
            (ContentType::Url, ContentType::Url) => true,
            (ContentType::Html, ContentType::Html) => true,
            (ContentType::Pdf, ContentType::Pdf) => true,
            (ContentType::Png, ContentType::Png) => true,
            (ContentType::Rtf, ContentType::Rtf) => true,
            (ContentType::Text, ContentType::Text) => true,
            _ => false,
        }
    }
}

impl vstd::std_specs::cmp::PartialEqSpecImpl for ContentType {
    open spec fn obeys_eq_spec() -> bool {
        true
    }

    open spec fn eq_spec(&self, other: &ContentType) -> bool {
        self@ == other@
    }
}

/// `c` is `lower`, or the ASCII upper-case letter whose lower-case form is `lower`.
pub open spec fn folds_to(c: char, lower: char) -> bool {
    c == lower || (65 <= c as u32 <= 90 && c as u32 + 32 == lower as u32)
}

/// `s` equals `name` once its ASCII letters are put in lower case
/// (`name` being written in lower case).
pub open spec fn ascii_fold_eq(s: Seq<char>, name: Seq<char>) -> bool {
    &&& s.len() == name.len()
    &&& forall|i: int| 0 <= i < s.len() ==> folds_to(#[trigger] s[i], name[i])
}

/// The content type that a type name denotes, if any: a well-known name in
/// any ASCII case, or `@` followed by a native identifier.
pub open spec fn parse(s: Seq<char>) -> Option<ContentTypeModel> {
    if ascii_fold_eq(s, "url"@) {
        Some(ContentTypeModel::Url)
    } else if ascii_fold_eq(s, "html"@) {
        Some(ContentTypeModel::Html)
    } else if ascii_fold_eq(s, "pdf"@) {
        Some(ContentTypeModel::Pdf)
    } else if ascii_fold_eq(s, "png"@) {
        Some(ContentTypeModel::Png)
    } else if ascii_fold_eq(s, "rtf"@) {
        Some(ContentTypeModel::Rtf)
    } else if ascii_fold_eq(s, "text"@) {
        Some(ContentTypeModel::Text)
    } else if s.len() > 0 && s[0] == '@' {
        Some(ContentTypeModel::Custom(s.drop_first()))
    } else {
        None
    }
}

/// The type name of a content type: the lower-case name of a well-known
/// flavor, or `@` followed by the native identifier.
pub open spec fn render(ct: ContentTypeModel) -> Seq<char> {
    match ct {
        ContentTypeModel::Url => "url"@,
        ContentTypeModel::Html => "html"@,
        ContentTypeModel::Pdf => "pdf"@,
        ContentTypeModel::Png => "png"@,
        ContentTypeModel::Rtf => "rtf"@,
        ContentTypeModel::Text => "text"@,
        ContentTypeModel::Custom(name) => "@"@ + name,
    }
}

/// Whether `s` equals the lower-case `name` up to ASCII case.
fn matches_name(s: &str, name: &str) -> (r: bool)
    ensures
        r == ascii_fold_eq(s@, name@),
{
    let n = s.unicode_len();
    if n != name.unicode_len() {
        return false;
    }
    let mut i: usize = 0;
    while i < n
        invariant
            n == s@.len(),
            n == name@.len(),
            0 <= i <= n,
            forall|j: int| 0 <= j < i ==> folds_to(#[trigger] s@[j], name@[j]),
        decreases n - i,
    {
        let c = s.get_char(i);
        let lower = name.get_char(i);
        let c_code = c as u32;
        let folds = c == lower || (65 <= c_code && c_code <= 90 && c_code + 32 == lower as u32);
        if !folds {
            return false;
        }
        i += 1;
    }
    true
}

/// Resolves a type name to a content type; `None` when the name is neither
/// well-known nor `@`-prefixed.
pub fn string_to_ct(s: &str) -> (r: Option<ContentType>)
    ensures
        r matches Some(ct) ==> parse(s@) == Some(ct@),
        r is None ==> parse(s@) is None,
{
    if matches_name(s, "url") {
        Some(ContentType::Url)
    } else if matches_name(s, "html") {
        Some(ContentType::Html)
    } else if matches_name(s, "pdf") {
        Some(ContentType::Pdf)
    } else if matches_name(s, "png") {
        Some(ContentType::Png)
    } else if matches_name(s, "rtf") {
        Some(ContentType::Rtf)
    } else if matches_name(s, "text") {
        Some(ContentType::Text)
    } else {
        let n = s.unicode_len();
        if n > 0 && s.get_char(0) == '@' {
            let rest = s.substring_char(1, n).to_owned();
            assert(rest@ =~= s@.drop_first());
            Some(ContentType::Custom(rest))
        } else {
            None
        }
    }
}

/// The type name of a content type.
pub fn show_ct(ct: &ContentType) -> (r: String)
    ensures
        r@ == render(ct@),
{
    match ct {
        ContentType::Text => String::from_str("text"),
        ContentType::Html => String::from_str("html"),
        ContentType::Pdf => String::from_str("pdf"),
        ContentType::Png => String::from_str("png"),
        ContentType::Rtf => String::from_str("rtf"),
        ContentType::Url => String::from_str("url"),
        ContentType::Custom(name) => String::from_str("@").concat(name.as_str()),
    }
}

/// Rendering a content type and resolving the name again gives back the
/// same content type.
pub proof fn lemma_parse_render(ct: ContentTypeModel)
    ensures
        parse(render(ct)) == Some(ct),
{
    reveal_strlit("url");
    reveal_strlit("html");
    reveal_strlit("pdf");
    reveal_strlit("png");
    reveal_strlit("rtf");
    reveal_strlit("text");
    reveal_strlit("@");
    let s = render(ct);
    if let ContentTypeModel::Custom(name) = ct {
        assert(s[0] == '@');
        assert(!ascii_fold_eq(s, "url"@) && !ascii_fold_eq(s, "html"@) && !ascii_fold_eq(s, "pdf"@));
        assert(!ascii_fold_eq(s, "png"@) && !ascii_fold_eq(s, "rtf"@) && !ascii_fold_eq(s, "text"@));
        assert(s.drop_first() =~= name);
    } else {
        assert(ascii_fold_eq(s, s));
        // A character at which the name differs from each earlier name of its length.
        assert(s[0] == s[0] && s[1] == s[1]);
        assert("url"@[0] == 'u' && "pdf"@[0] == 'p' && "pdf"@[1] == 'd' && "png"@[0] == 'p');
        assert("html"@[0] == 'h');
    }
}

/// Resolving a name and rendering the content type gives back the name:
/// exactly for a native `@` name, and up to ASCII case for a well-known one.
pub proof fn lemma_render_parse(s: Seq<char>)
    requires
        parse(s) is Some,
    ensures
        parse(s) matches Some(ContentTypeModel::Custom(_)) ==> render(parse(s)->0) == s,
        !(parse(s) matches Some(ContentTypeModel::Custom(_))) ==> ascii_fold_eq(s, render(parse(s)->0)),
{
    reveal_strlit("@");
    if let Some(ContentTypeModel::Custom(name)) = parse(s) {
        assert(render(parse(s)->0) =~= s);
    }
}

} // verus!
