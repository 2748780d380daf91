//! The content manifest: a flat key-value text format and its parser.
//!
//! A manifest is a sequence of `key = value` entries.  A value is either a
//! quoted string or a braced list of quoted strings.  The recognized keys
//! are `name` (string, required), `tags` (list, optional) and
//! `remote_file_id` (string, optional); unknown keys are ignored so that
//! newer manifests still parse.

use vstd::prelude::*;

verus! {

/// The parsed manifest: the item's display name, its optional ordered
/// tags, and the optional identifier of a pre-existing remote item.
#[derive(Debug, PartialEq, Eq)]
pub struct Descriptor {
    pub tags: Option<Vec<String>>,
    pub name: String,
    pub remote_file_id: Option<String>,
}

/// Mathematical model of a [`Descriptor`].
pub struct DescriptorView {
    pub tags: Option<Seq<Seq<char>>>,
    pub name: Seq<char>,
    pub remote_file_id: Option<Seq<char>>,
}

impl View for Descriptor {
    type V = DescriptorView;

    open spec fn view(&self) -> DescriptorView {
        DescriptorView {
            tags: match self.tags {
                Some(ref t) => Some(t.deep_view()),
                None => None,
            },
            name: self.name@,
            remote_file_id: match self.remote_file_id {
                Some(ref r) => Some(r@),
                None => None,
            },
        }
    }
}

/// Why a manifest could not be turned into a [`Descriptor`].
#[derive(Debug, PartialEq, Eq, Clone, Copy)]
pub enum ManifestError {
    /// The manifest file could not be read.
    Read,
    /// The manifest text is malformed or misses a required field.
    Format,
}

/// Whitespace between tokens: blank, tab, carriage return, newline.
pub open spec fn is_ws_char(c: char) -> bool {
    c == ' ' || c == '\t' || c == '\r' || c == '\n'
}

/// A key character: an ASCII letter, a digit, or an underscore.
pub open spec fn is_ident_char(c: char) -> bool {
    ||| 97 <= c as u32 && c as u32 <= 122
    ||| 65 <= c as u32 && c as u32 <= 90
    ||| 48 <= c as u32 && c as u32 <= 57
    ||| c == '_'
}

/// First position at or after `i` that does not hold whitespace.
pub open spec fn skip_ws(s: Seq<char>, i: int) -> int
    decreases s.len() - i,
{
    if 0 <= i < s.len() && is_ws_char(s[i]) {
        skip_ws(s, i + 1)
    } else {
        i
    }
}

/// First position at or after `i` that does not hold a key character.
pub open spec fn scan_ident(s: Seq<char>, i: int) -> int
    decreases s.len() - i,
{
    if 0 <= i < s.len() && is_ident_char(s[i]) {
        scan_ident(s, i + 1)
    } else {
        i
    }
}

/// First position at or after `i` that holds a double quote, or the end.
pub open spec fn scan_quote(s: Seq<char>, i: int) -> int
    decreases s.len() - i,
{
    if 0 <= i < s.len() && s[i] != '"' {
        scan_quote(s, i + 1)
    } else {
        i
    }
}

proof fn lemma_skip_ws_ge(s: Seq<char>, i: int)
    ensures
        i <= skip_ws(s, i),
        i <= s.len() ==> skip_ws(s, i) <= s.len(),
    decreases s.len() - i,
{
    if 0 <= i < s.len() && is_ws_char(s[i]) {
        lemma_skip_ws_ge(s, i + 1);
    }
}

proof fn lemma_scan_ident_ge(s: Seq<char>, i: int)
    ensures
        i <= scan_ident(s, i),
        i <= s.len() ==> scan_ident(s, i) <= s.len(),
    decreases s.len() - i,
{
    if 0 <= i < s.len() && is_ident_char(s[i]) {
        lemma_scan_ident_ge(s, i + 1);
    }
}

proof fn lemma_scan_quote_ge(s: Seq<char>, i: int)
    ensures
        i <= scan_quote(s, i),
        i <= s.len() ==> scan_quote(s, i) <= s.len(),
    decreases s.len() - i,
{
    if 0 <= i < s.len() && s[i] != '"' {
        lemma_scan_quote_ge(s, i + 1);
    }
}

/// A quoted string starting at `i`: the text between the quotes and the
/// position after the closing quote, or nothing when `i` does not hold an
/// opening quote or no closing quote follows.
pub open spec fn parse_quoted(s: Seq<char>, i: int) -> Option<(Seq<char>, int)> {
    if 0 <= i < s.len() && s[i] == '"' {
        let q = scan_quote(s, i + 1);
        if q < s.len() {
            Some((s.subrange(i + 1, q), q + 1))
        } else {
            None
        }
    } else {
        None
    }
}

/// The items of a braced list, read from position `i` (just after the
/// opening brace) to the closing brace: the items in order and the
/// position after the closing brace.
pub open spec fn parse_list_items(s: Seq<char>, i: int) -> Option<(Seq<Seq<char>>, int)>
    decreases s.len() - i,
        via parse_list_items_decreases
{
    let j = skip_ws(s, i);
    if j >= s.len() {
        None
    } else if s[j] == '}' {
        Some((Seq::empty(), j + 1))
    } else if s[j] == '"' {
        match parse_quoted(s, j) {
            Some((item, n)) => match parse_list_items(s, n) {
                Some((rest, end)) => Some((seq![item] + rest, end)),
                None => None,
            },
            None => None,
        }
    } else {
        None
    }
}

#[via_fn]
proof fn parse_list_items_decreases(s: Seq<char>, i: int) {
    lemma_skip_ws_ge(s, i);
    let j = skip_ws(s, i);
    lemma_scan_quote_ge(s, j + 1);
}

proof fn lemma_parse_list_items_range(s: Seq<char>, i: int)
    ensures
        parse_list_items(s, i) matches Some(p) ==> i < p.1 <= s.len(),
    decreases s.len() - i,
{
    lemma_skip_ws_ge(s, i);
    let j = skip_ws(s, i);
    if j < s.len() && s[j] != '}' && s[j] == '"' {
        lemma_scan_quote_ge(s, j + 1);
        match parse_quoted(s, j) {
            Some((item, n)) => lemma_parse_list_items_range(s, n),
            None => (),
        }
    }
}

proof fn lemma_scan_quote_past(s: Seq<char>, i: int, j: int)
    requires
        0 <= i <= j < s.len(),
        forall|k: int| i <= k < j ==> s[k] != '"',
        s[j] == '"',
    ensures
        scan_quote(s, i) == j,
    decreases j - i,
{
    if i < j {
        lemma_scan_quote_past(s, i + 1, j);
    }
}

/// The fields collected while reading a manifest, each absent until its
/// key has been seen.
pub struct ManifestAcc {
    pub name: Option<Seq<char>>,
    pub tags: Option<Seq<Seq<char>>>,
    pub remote_file_id: Option<Seq<char>>,
}

/// No field seen yet.
pub open spec fn empty_acc() -> ManifestAcc {
    ManifestAcc { name: None, tags: None, remote_file_id: None }
}

/// A string-valued entry: `name` and `remote_file_id` take the value, a
/// string-valued `tags` is malformed, unknown keys are ignored.
pub open spec fn apply_scalar(acc: ManifestAcc, key: Seq<char>, text: Seq<char>) -> Option<
    ManifestAcc,
> {
    if key == "name"@ {
        Some(ManifestAcc { name: Some(text), tags: acc.tags, remote_file_id: acc.remote_file_id })
    } else if key == "remote_file_id"@ {
        Some(ManifestAcc { name: acc.name, tags: acc.tags, remote_file_id: Some(text) })
    } else if key == "tags"@ {
        None
    } else {
        Some(acc)
    }
}

/// A list-valued entry: `tags` takes the items, a list-valued `name` or
/// `remote_file_id` is malformed, unknown keys are ignored.
pub open spec fn apply_list(acc: ManifestAcc, key: Seq<char>, items: Seq<Seq<char>>) -> Option<
    ManifestAcc,
> {
    if key == "tags"@ {
        Some(ManifestAcc { name: acc.name, tags: Some(items), remote_file_id: acc.remote_file_id })
    } else if key == "name"@ || key == "remote_file_id"@ {
        None
    } else {
        Some(acc)
    }
}

/// Reads `key = value` entries from position `i` to the end of the text,
/// folding each into the accumulator.  A later entry for a key replaces an
/// earlier one.  Nothing is returned when the text is malformed.
pub open spec fn parse_doc(s: Seq<char>, i: int, acc: ManifestAcc) -> Option<ManifestAcc>
    decreases s.len() - i,
        via parse_doc_decreases
{
    let j = skip_ws(s, i);
    if j >= s.len() {
        Some(acc)
    } else {
        let k = scan_ident(s, j);
        if k == j {
            None
        } else {
            let key = s.subrange(j, k);
            let m = skip_ws(s, k);
            if m >= s.len() || s[m] != '=' {
                None
            } else {
                let v = skip_ws(s, m + 1);
                if v < s.len() && s[v] == '"' {
                    match parse_quoted(s, v) {
                        Some((text, next)) => match apply_scalar(acc, key, text) {
                            Some(acc2) => parse_doc(s, next, acc2),
                            None => None,
                        },
                        None => None,
                    }
                } else if v < s.len() && s[v] == '{' {
                    match parse_list_items(s, v + 1) {
                        Some((items, next)) => match apply_list(acc, key, items) {
                            Some(acc2) => parse_doc(s, next, acc2),
                            None => None,
                        },
                        None => None,
                    }
                } else {
                    None
                }
            }
        }
    }
}

#[via_fn]
proof fn parse_doc_decreases(s: Seq<char>, i: int, acc: ManifestAcc) {
    lemma_skip_ws_ge(s, i);
    let j = skip_ws(s, i);
    lemma_scan_ident_ge(s, j);
    let k = scan_ident(s, j);
    lemma_skip_ws_ge(s, k);
    let m = skip_ws(s, k);
    lemma_skip_ws_ge(s, m + 1);
    let v = skip_ws(s, m + 1);
    lemma_scan_quote_ge(s, v + 1);
    lemma_parse_list_items_range(s, v + 1);
}

/// Whether an entry for `key` occurs in the well-formed prefix of the text
/// from position `i` on.
pub open spec fn doc_mentions(s: Seq<char>, i: int, key: Seq<char>) -> bool
    decreases s.len() - i,
        via doc_mentions_decreases
{
    let j = skip_ws(s, i);
    if j >= s.len() {
        false
    } else {
        let k = scan_ident(s, j);
        if k == j {
            false
        } else {
            let this = s.subrange(j, k);
            let m = skip_ws(s, k);
            if m >= s.len() || s[m] != '=' {
                this == key
            } else {
                let v = skip_ws(s, m + 1);
                if v < s.len() && s[v] == '"' {
                    match parse_quoted(s, v) {
                        Some((text, next)) => this == key || doc_mentions(s, next, key),
                        None => this == key,
                    }
                } else if v < s.len() && s[v] == '{' {
                    match parse_list_items(s, v + 1) {
                        Some((items, next)) => this == key || doc_mentions(s, next, key),
                        None => this == key,
                    }
                } else {
                    this == key
                }
            }
        }
    }
}

#[via_fn]
proof fn doc_mentions_decreases(s: Seq<char>, i: int, key: Seq<char>) {
    lemma_skip_ws_ge(s, i);
    let j = skip_ws(s, i);
    lemma_scan_ident_ge(s, j);
    let k = scan_ident(s, j);
    lemma_skip_ws_ge(s, k);
    let m = skip_ws(s, k);
    lemma_skip_ws_ge(s, m + 1);
    let v = skip_ws(s, m + 1);
    lemma_scan_quote_ge(s, v + 1);
    lemma_parse_list_items_range(s, v + 1);
}

/// The manifest's meaning: the folded fields of its entries, provided the
/// text is well formed and a `name` entry occurred.
pub open spec fn spec_parse(s: Seq<char>) -> Option<DescriptorView> {
    match parse_doc(s, 0, empty_acc()) {
        Some(acc) => match acc.name {
            Some(nm) => Some(
                DescriptorView { tags: acc.tags, name: nm, remote_file_id: acc.remote_file_id },
            ),
            None => None,
        },
        None => None,
    }
}

/// A field for which no entry occurs keeps its accumulated value.
proof fn lemma_parse_doc_frames(s: Seq<char>, i: int, acc: ManifestAcc)
    requires
        parse_doc(s, i, acc) is Some,
    ensures
        !doc_mentions(s, i, "name"@) ==> parse_doc(s, i, acc)->0.name == acc.name,
        !doc_mentions(s, i, "tags"@) ==> parse_doc(s, i, acc)->0.tags == acc.tags,
        !doc_mentions(s, i, "remote_file_id"@) ==> parse_doc(s, i, acc)->0.remote_file_id
            == acc.remote_file_id,
    decreases s.len() - i,
{
    lemma_skip_ws_ge(s, i);
    let j = skip_ws(s, i);
    if j < s.len() {
        lemma_scan_ident_ge(s, j);
        let k = scan_ident(s, j);
        let key = s.subrange(j, k);
        lemma_skip_ws_ge(s, k);
        let m = skip_ws(s, k);
        lemma_skip_ws_ge(s, m + 1);
        let v = skip_ws(s, m + 1);
        if v < s.len() && s[v] == '"' {
            lemma_scan_quote_ge(s, v + 1);
            match parse_quoted(s, v) {
                Some((text, next)) => match apply_scalar(acc, key, text) {
                    Some(acc2) => lemma_parse_doc_frames(s, next, acc2),
                    None => (),
                },
                None => (),
            }
        } else if v < s.len() && s[v] == '{' {
            lemma_parse_list_items_range(s, v + 1);
            match parse_list_items(s, v + 1) {
                Some((items, next)) => match apply_list(acc, key, items) {
                    Some(acc2) => lemma_parse_doc_frames(s, next, acc2),
                    None => (),
                },
                None => (),
            }
        }
    }
}

fn skip_ws_exec(s: &str, i: usize, n: usize) -> (j: usize)
    requires
        n == s@.len(),
        i <= n,
    ensures
        j == skip_ws(s@, i as int),
        i <= j <= n,
{
    let mut j: usize = i;
    while j < n
        invariant
            n == s@.len(),
            i <= j <= n,
            skip_ws(s@, i as int) == skip_ws(s@, j as int),
        decreases n - j,
    {
        let c = s.get_char(j);
        if !(c == ' ' || c == '\t' || c == '\r' || c == '\n') {
            assert(skip_ws(s@, j as int) == j as int);
            return j;
        }
        assert(skip_ws(s@, j as int) == skip_ws(s@, j + 1));
        j = j + 1;
    }
    assert(skip_ws(s@, j as int) == j as int);
    j
}

fn scan_ident_exec(s: &str, i: usize, n: usize) -> (j: usize)
    requires
        n == s@.len(),
        i <= n,
    ensures
        j == scan_ident(s@, i as int),
        i <= j <= n,
{
    let mut j: usize = i;
    while j < n
        invariant
            n == s@.len(),
            i <= j <= n,
            scan_ident(s@, i as int) == scan_ident(s@, j as int),
        decreases n - j,
    {
        let c = s.get_char(j);
        let u = c as u32;
        let ident = (97 <= u && u <= 122) || (65 <= u && u <= 90) || (48 <= u && u <= 57) || c
            == '_';
        if !ident {
            assert(!is_ident_char(s@[j as int]));
            assert(scan_ident(s@, j as int) == j as int);
            return j;
        }
        assert(is_ident_char(s@[j as int]));
        assert(scan_ident(s@, j as int) == scan_ident(s@, j + 1));
        j = j + 1;
    }
    assert(scan_ident(s@, j as int) == j as int);
    j
}

fn scan_quote_exec(s: &str, i: usize, n: usize) -> (j: usize)
    requires
        n == s@.len(),
        i <= n,
    ensures
        j == scan_quote(s@, i as int),
        i <= j <= n,
{
    let mut j: usize = i;
    while j < n
        invariant
            n == s@.len(),
            i <= j <= n,
            scan_quote(s@, i as int) == scan_quote(s@, j as int),
        decreases n - j,
    {
        let c = s.get_char(j);
        if c == '"' {
            assert(scan_quote(s@, j as int) == j as int);
            return j;
        }
        assert(scan_quote(s@, j as int) == scan_quote(s@, j + 1));
        j = j + 1;
    }
    assert(scan_quote(s@, j as int) == j as int);
    j
}

/// Character-for-character string equality.
fn str_eq(a: &str, b: &str) -> (r: bool)
    ensures
        r == (a@ == b@),
{
    let na = a.unicode_len();
    let nb = b.unicode_len();
    if na != nb {
        return false;
    }
    let mut i: usize = 0;
    while i < na
        invariant
            na == a@.len(),
            na == b@.len(),
            i <= na,
            forall|k: int| 0 <= k < i ==> a@[k] == b@[k],
        decreases na - i,
    {
        if a.get_char(i) != b.get_char(i) {
            return false;
        }
        i = i + 1;
    }
    proof {
        assert(a@ =~= b@);
    }
    true
}

fn parse_quoted_exec(s: &str, i: usize, n: usize) -> (r: Option<(String, usize)>)
    requires
        n == s@.len(),
        i <= n,
    ensures
        match r {
            Some(p) => parse_quoted(s@, i as int) == Some((p.0@, p.1 as int)) && i < p.1 <= n,
            None => parse_quoted(s@, i as int) is None,
        },
{
    if i < n {
        let c = s.get_char(i);
        if c == '"' {
            let q = scan_quote_exec(s, i + 1, n);
            if q < n {
                let text = s.substring_char(i + 1, q).to_owned();
                return Some((text, q + 1));
            }
        }
    }
    None
}

fn parse_list_exec(s: &str, i: usize, n: usize) -> (r: Option<(Vec<String>, usize)>)
    requires
        n == s@.len(),
        i <= n,
    ensures
        match r {
            Some(p) => parse_list_items(s@, i as int) == Some((p.0.deep_view(), p.1 as int)) && i
                < p.1 <= n,
            None => parse_list_items(s@, i as int) is None,
        },
{
    let mut items: Vec<String> = Vec::new();
    let mut cur: usize = i;
    loop
        invariant
            n == s@.len(),
            i <= cur <= n,
            (match parse_list_items(s@, cur as int) {
                Some(q) => parse_list_items(s@, i as int) == Some(
                    (items.deep_view() + q.0, q.1),
                ),
                None => parse_list_items(s@, i as int) is None,
            }),
        decreases n - cur,
    {
        let j = skip_ws_exec(s, cur, n);
        if j == n {
            return None;
        }
        let c = s.get_char(j);
        if c == '}' {
            proof {
                assert(items.deep_view() + Seq::<Seq<char>>::empty() =~= items.deep_view());
                lemma_parse_list_items_range(s@, i as int);
            }
            return Some((items, j + 1));
        } else if c == '"' {
            match parse_quoted_exec(s, j, n) {
                Some(p) => {
                    let ghost old_items = items.deep_view();
                    let ghost text = p.0@;
                    let ghost next = p.1 as int;
                    items.push(p.0);
                    proof {
                        assert(items.deep_view() =~= old_items.push(text));
                        match parse_list_items(s@, next) {
                            Some(q) => {
                                assert(parse_list_items(s@, cur as int) == Some(
                                    (seq![text] + q.0, q.1),
                                ));
                                assert(old_items + (seq![text] + q.0) =~= items.deep_view() + q.0);
                            },
                            None => {
                                assert(parse_list_items(s@, cur as int) is None);
                            },
                        }
                    }
                    cur = p.1;
                },
                None => {
                    return None;
                },
            }
        } else {
            return None;
        }
    }
}

impl Descriptor {
    /// Parses a manifest text.  Succeeds exactly on the well-formed
    /// manifests that carry a `name` entry, and then returns the
    /// descriptor their entries describe; every other text is rejected as
    /// malformed.
    pub fn parse(s: &str) -> (r: Result<Descriptor, ManifestError>)
        ensures
            match r {
                Ok(d) => spec_parse(s@) == Some(d@),
                Err(e) => spec_parse(s@) is None && e is Format,
            },
    {
        let n = s.unicode_len();
        let mut name: Option<String> = None;
        let mut tags: Option<Vec<String>> = None;
        let mut remote: Option<String> = None;
        let mut i: usize = 0;
        loop
            invariant
                n == s@.len(),
                i <= n,
                parse_doc(s@, 0, empty_acc()) == parse_doc(
                    s@,
                    i as int,
                    acc_view(name, tags, remote),
                ),
            decreases n - i,
        {
            let ghost acc = acc_view(name, tags, remote);
            let j = skip_ws_exec(s, i, n);
            if j == n {
                assert(parse_doc(s@, i as int, acc) == Some(acc));
                return match name {
                    Some(nm) => Ok(Descriptor { tags, name: nm, remote_file_id: remote }),
                    None => Err(ManifestError::Format),
                };
            }
            let k = scan_ident_exec(s, j, n);
            if k == j {
                return Err(ManifestError::Format);
            }
            let key = s.substring_char(j, k);
            assert(key@ == s@.subrange(j as int, k as int));
            let m = skip_ws_exec(s, k, n);
            if m == n {
                return Err(ManifestError::Format);
            }
            if s.get_char(m) != '=' {
                return Err(ManifestError::Format);
            }
            let v = skip_ws_exec(s, m + 1, n);
            if v == n {
                return Err(ManifestError::Format);
            }
            let c = s.get_char(v);
            if c == '"' {
                match parse_quoted_exec(s, v, n) {
                    Some(p) => {
                        if str_eq(key, "name") {
                            name = Some(p.0);
                        } else if str_eq(key, "remote_file_id") {
                            remote = Some(p.0);
                        } else if str_eq(key, "tags") {
                            return Err(ManifestError::Format);
                        }
                        i = p.1;
                    },
                    None => {
                        return Err(ManifestError::Format);
                    },
                }
            } else if c == '{' {
                match parse_list_exec(s, v + 1, n) {
                    Some(p) => {
                        if str_eq(key, "tags") {
                            tags = Some(p.0);
                        } else if str_eq(key, "name") {
                            return Err(ManifestError::Format);
                        } else if str_eq(key, "remote_file_id") {
                            return Err(ManifestError::Format);
                        }
                        i = p.1;
                    },
                    None => {
                        return Err(ManifestError::Format);
                    },
                }
            } else {
                return Err(ManifestError::Format);
            }
        }
    }
}

/// The accumulated fields, as the spec-level accumulator.
pub open spec fn acc_view(
    name: Option<String>,
    tags: Option<Vec<String>>,
    remote_file_id: Option<String>,
) -> ManifestAcc {
    ManifestAcc {
        name: match name {
            Some(x) => Some(x@),
            None => None,
        },
        tags: match tags {
            Some(x) => Some(x.deep_view()),
            None => None,
        },
        remote_file_id: match remote_file_id {
            Some(x) => Some(x@),
            None => None,
        },
    }
}

/// Law: a well-formed manifest with no `tags` and no `remote_file_id`
/// entry parses to a descriptor in which both fields are absent.
pub proof fn lemma_absent_fields_stay_absent(s: Seq<char>)
    requires
        spec_parse(s) is Some,
        !doc_mentions(s, 0, "tags"@),
        !doc_mentions(s, 0, "remote_file_id"@),
    ensures
        spec_parse(s)->0.tags is None,
        spec_parse(s)->0.remote_file_id is None,
{
    lemma_parse_doc_frames(s, 0, empty_acc());
}

/// Law: the name is taken over exactly as written.  A manifest holding one
/// `name` entry and nothing else parses to a descriptor whose name is that
/// entry's text, whatever it is, with both optional fields absent.
pub proof fn lemma_name_taken_verbatim(text: Seq<char>)
    requires
        forall|k: int| 0 <= k < text.len() ==> text[k] != '"',
    ensures
        spec_parse("name=\""@ + text + "\""@) == Some(
            DescriptorView { tags: None, name: text, remote_file_id: None },
        ),
{
    reveal_strlit("name=\"");
    reveal_strlit("\"");
    reveal_strlit("name");
    let s = "name=\""@ + text + "\""@;
    let close = 6 + text.len() as int;
    assert(s.len() == close + 1);
    assert forall|k: int| 0 <= k < 6 implies s[k] == "name=\""@[k] by {}
    assert forall|k: int| 6 <= k < close implies s[k] == text[k - 6] by {}
    assert(s[close] == '"');
    // the key runs from position 0 to the `=` at position 4
    assert(skip_ws(s, 0) == 0);
    assert(scan_ident(s, 4) == 4);
    assert(scan_ident(s, 3) == 4);
    assert(scan_ident(s, 2) == 4);
    assert(scan_ident(s, 1) == 4);
    assert(scan_ident(s, 0) == 4);
    assert(s.subrange(0, 4) =~= "name"@);
    assert(skip_ws(s, 4) == 4);
    assert(skip_ws(s, 5) == 5);
    // the value is the quoted text, closed by the final quote
    lemma_scan_quote_past(s, 6, close);
    assert(parse_quoted(s, 5) == Some((s.subrange(6, close), close + 1)));
    assert(s.subrange(6, close) =~= text);
    let acc2 = ManifestAcc { name: Some(text), tags: None, remote_file_id: None };
    assert(apply_scalar(empty_acc(), "name"@, text) == Some(acc2));
    assert(skip_ws(s, close + 1) == close + 1);
    assert(parse_doc(s, close + 1, acc2) == Some(acc2));
    assert(parse_doc(s, 0, empty_acc()) == Some(acc2));
}

/// Law: a manifest with no `name` entry does not parse.
pub proof fn lemma_missing_name_rejected(s: Seq<char>)
    requires
        !doc_mentions(s, 0, "name"@),
    ensures
        spec_parse(s) is None,
{
    if parse_doc(s, 0, empty_acc()) is Some {
        lemma_parse_doc_frames(s, 0, empty_acc());
    }
}

} // verus!
