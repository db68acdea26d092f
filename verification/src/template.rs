//! Name templates: the text of a matrix flavour's name, in which a tag
//! `{{key}}` stands for the value of the dimension `key`.
//!
//! This module holds what the library itself decides about a template: the
//! removal of the `row.` scope, which tags a template may hold, and whether
//! every tag names a bound key. Rendering is left to the template engine.
use vstd::prelude::*;

verus! {

/// Whether the scope marker `row.` stands at the start of `s`.
pub open spec fn scope_ahead(s: Seq<char>) -> bool {
    s.len() >= 4 && s[0] == 'r' && s[1] == 'o' && s[2] == 'w' && s[3] == '.'
}

/// The text `s` without any `row.`: the markers are taken out from the
/// left, one after the other, and what is left is not searched again.
pub open spec fn strip_scope(s: Seq<char>) -> Seq<char>
    decreases s.len(),
{
    if s.len() == 0 {
        s
    } else if scope_ahead(s) {
        strip_scope(s.skip(4))
    } else {
        seq![s[0]] + strip_scope(s.skip(1))
    }
}

/// Removes the scope marker `row.` wherever it stands in `template`.
pub fn strip_row(template: &str) -> (r: String)
    ensures
        r@ == strip_scope(template@),
{
    let len = template.unicode_len();
    let mut out = String::new();
    let mut at: usize = 0;
    assert(template@.skip(0) =~= template@);
    while at < len
        invariant
            len == template@.len(),
            at <= len,
            out@ + strip_scope(template@.skip(at as int)) == strip_scope(template@),
        decreases len - at,
    {
        let ghost rest = template@.skip(at as int);
        let marked = len - at >= 4 && template.get_char(at) == 'r' && template.get_char(at + 1)
            == 'o' && template.get_char(at + 2) == 'w' && template.get_char(at + 3) == '.';
        if marked {
            assert(rest.skip(4) =~= template@.skip(at as int + 4));
            at = at + 4;
        } else {
            let c = template.get_char(at);
            assert(rest.skip(1) =~= template@.skip(at as int + 1));
            out.push(c);
            at = at + 1;
        }
    }
    out
}

/// How many characters stand before the first pair `cc` in `s`, or the
/// length of `s` where it holds no such pair.
pub open spec fn pair_gap(s: Seq<char>, c: char) -> nat
    decreases s.len(),
{
    if s.len() < 2 {
        s.len()
    } else if s[0] == c && s[1] == c {
        0
    } else {
        1 + pair_gap(s.skip(1), c)
    }
}

/// Whether a tag opens at `at` that pulls in another template (`{{>`) or
/// changes the tag delimiters (`{{=`).
pub open spec fn foreign_at(s: Seq<char>, at: int) -> bool {
    &&& 0 <= at
    &&& at + 2 < s.len()
    &&& s[at] == '{'
    &&& s[at + 1] == '{'
    &&& (s[at + 2] == '>' || s[at + 2] == '=')
}

/// Whether `s` holds a tag that this library refuses: with one, what a
/// template renders to would depend on more than its text and bindings.
pub open spec fn has_foreign_tag(s: Seq<char>) -> bool {
    exists|at: int| foreign_at(s, at)
}

/// The text `s` without the spaces at its two ends.
pub open spec fn trimmed(s: Seq<char>) -> Seq<char>
    decreases s.len(),
{
    if s.len() > 0 && s[0] == ' ' {
        trimmed(s.skip(1))
    } else if s.len() > 0 && s.last() == ' ' {
        trimmed(s.drop_last())
    } else {
        s
    }
}

/// Whether `c` marks a tag as a section, its end, or an unescaped value.
pub open spec fn is_sigil(c: char) -> bool {
    c == '#' || c == '^' || c == '/' || c == '&' || c == '{'
}

/// The name that a tag refers to, given the text between its braces: none
/// for a comment, else that text without its mark and outer spaces.
pub open spec fn tag_name(body: Seq<char>) -> Option<Seq<char>> {
    if body.len() > 0 && body[0] == '!' {
        None
    } else if body.len() > 0 && is_sigil(body[0]) {
        Some(trimmed(body.skip(1)))
    } else {
        Some(trimmed(body))
    }
}

/// Whether `name` is bound: it is one of the keys and holds no point. A
/// name with a point addresses a value inside another, and the bindings of
/// a matrix are flat.
pub open spec fn binds(keys: Set<Seq<char>>, name: Seq<char>) -> bool {
    keys.contains(name) && !name.contains('.')
}

/// Whether the tag with this text between its braces is a comment or names
/// a bound key.
pub open spec fn tag_bound(body: Seq<char>, keys: Set<Seq<char>>) -> bool {
    match tag_name(body) {
        Some(name) => binds(keys, name),
        None => true,
    }
}

/// Whether every tag of `s` is a comment or names a bound key. A tag runs
/// from a `{{` to the next `}}`; the search for the next tag goes on behind
/// it. A `{{` that is never closed is no tag here.
pub open spec fn tags_bound(s: Seq<char>, keys: Set<Seq<char>>) -> bool
    decreases s.len(),
{
    let open = pair_gap(s, '{');
    if open + 2 > s.len() {
        true
    } else {
        let rest = s.skip(open as int + 2);
        let close = pair_gap(rest, '}');
        if close + 2 > rest.len() {
            true
        } else {
            tag_bound(rest.take(close as int), keys) && tags_bound(
                rest.skip(close as int + 2),
                keys,
            )
        }
    }
}

/// Whether `template` holds a tag that pulls in another template or changes
/// the delimiters.
pub fn foreign_tag(template: &str) -> (r: bool)
    ensures
        r == has_foreign_tag(template@),
{
    let len = template.unicode_len();
    if len < 3 {
        return false;
    }
    let mut at: usize = 0;
    while at < len - 2
        invariant
            len == template@.len(),
            len >= 3,
            forall|j: int| j < at ==> !foreign_at(template@, j),
        decreases len - at,
    {
        if template.get_char(at) == '{' && template.get_char(at + 1) == '{' {
            let mark = template.get_char(at + 2);
            if mark == '>' || mark == '=' {
                assert(foreign_at(template@, at as int));
                return true;
            }
        }
        at = at + 1;
    }
    false
}

fn find_pair(s: &str, len: usize, from: usize, c: char) -> (r: usize)
    requires
        len == s@.len(),
        from <= len,
    ensures
        r == from + pair_gap(s@.skip(from as int), c),
        from <= r <= len,
{
    let mut at: usize = from;
    while len - at >= 2
        invariant
            len == s@.len(),
            from <= at <= len,
            from + pair_gap(s@.skip(from as int), c) == at + pair_gap(s@.skip(at as int), c),
        decreases len - at,
    {
        if s.get_char(at) == c && s.get_char(at + 1) == c {
            return at;
        }
        assert(s@.skip(at as int).skip(1) =~= s@.skip(at as int + 1));
        at = at + 1;
    }
    len
}

fn name_bound(s: &str, from: usize, to: usize, keys: &Vec<String>) -> (r: bool)
    requires
        from <= to <= s@.len(),
    ensures
        r == tag_bound(s@.subrange(from as int, to as int), keys.deep_view().to_set()),
{
    let ghost body = s@.subrange(from as int, to as int);
    let mut lo: usize = from;
    if from < to {
        let mark = s.get_char(from);
        if mark == '!' {
            return true;
        }
        if mark == '#' || mark == '^' || mark == '/' || mark == '&' || mark == '{' {
            lo = from + 1;
            assert(body.skip(1) =~= s@.subrange(lo as int, to as int));
        }
    }
    let ghost inner = s@.subrange(lo as int, to as int);
    while lo < to && s.get_char(lo) == ' '
        invariant
            from <= lo <= to <= s@.len(),
            trimmed(s@.subrange(lo as int, to as int)) == trimmed(inner),
        decreases to - lo,
    {
        assert(s@.subrange(lo as int, to as int).skip(1) =~= s@.subrange(lo as int + 1, to as int));
        lo = lo + 1;
    }
    let mut hi: usize = to;
    while lo < hi && s.get_char(hi - 1) == ' '
        invariant
            from <= lo <= hi <= to <= s@.len(),
            lo < hi ==> s@[lo as int] != ' ',
            trimmed(s@.subrange(lo as int, hi as int)) == trimmed(inner),
        decreases hi - lo,
    {
        assert(s@.subrange(lo as int, hi as int).drop_last() =~= s@.subrange(
            lo as int,
            hi as int - 1,
        ));
        hi = hi - 1;
    }
    let ghost name = s@.subrange(lo as int, hi as int);
    let mut at: usize = lo;
    while at < hi
        invariant
            lo <= at <= hi <= s@.len(),
            name == s@.subrange(lo as int, hi as int),
            tag_name(s@.subrange(from as int, to as int)) == Some(name),
            forall|j: int| 0 <= j < at - lo ==> name[j] != '.',
        decreases hi - at,
    {
        if s.get_char(at) == '.' {
            assert(name[at - lo] == '.');
            return false;
        }
        at = at + 1;
    }
    let wanted = String::from_str(s.substring_char(lo, hi));
    let mut k: usize = 0;
    while k < keys.len()
        invariant
            k <= keys.len(),
            wanted@ == name,
            !name.contains('.'),
            tag_name(s@.subrange(from as int, to as int)) == Some(name),
            forall|j: int| 0 <= j < k ==> keys.deep_view()[j] != name,
        decreases keys.len() - k,
    {
        if keys[k] == wanted {
            assert(keys.deep_view()[k as int] == name);
            return true;
        }
        k = k + 1;
    }
    false
}

/// Whether every tag of `template` is a comment or names one of `keys`.
pub fn placeholders_bound(template: &str, keys: &Vec<String>) -> (r: bool)
    ensures
        r == tags_bound(template@, keys.deep_view().to_set()),
{
    let len = template.unicode_len();
    let mut at: usize = 0;
    assert(template@.skip(0) =~= template@);
    while at < len
        invariant
            len == template@.len(),
            at <= len,
            tags_bound(template@.skip(at as int), keys.deep_view().to_set()) == tags_bound(
                template@,
                keys.deep_view().to_set(),
            ),
        decreases len - at,
    {
        let ghost tail = template@.skip(at as int);
        let open = find_pair(template, len, at, '{');
        if len - open < 2 {
            return true;
        }
        let ghost rest = tail.skip(open - at + 2);
        assert(rest =~= template@.skip(open as int + 2));
        let close = find_pair(template, len, open + 2, '}');
        if len - close < 2 {
            return true;
        }
        assert(rest.take(close - open - 2) =~= template@.subrange(open as int + 2, close as int));
        assert(rest.skip(close - open - 2 + 2) =~= template@.skip(close as int + 2));
        if !name_bound(template, open + 2, close, keys) {
            return false;
        }
        at = close + 2;
    }
    true
}

/// Whether `s` holds a tag that refers to `name`.
pub open spec fn refers_to(s: Seq<char>, name: Seq<char>) -> bool
    decreases s.len(),
{
    let open = pair_gap(s, '{');
    if open + 2 > s.len() {
        false
    } else {
        let rest = s.skip(open as int + 2);
        let close = pair_gap(rest, '}');
        if close + 2 > rest.len() {
            false
        } else {
            tag_name(rest.take(close as int)) == Some(name) || refers_to(
                rest.skip(close as int + 2),
                name,
            )
        }
    }
}

/// A template with a tag that refers to a name that is none of the keys
/// has a tag that is not bound.
pub proof fn unbound_reference(s: Seq<char>, name: Seq<char>, keys: Set<Seq<char>>)
    requires
        refers_to(s, name),
        !keys.contains(name),
    ensures
        !tags_bound(s, keys),
    decreases s.len(),
{
    let open = pair_gap(s, '{');
    let rest = s.skip(open as int + 2);
    let close = pair_gap(rest, '}');
    if tag_name(rest.take(close as int)) != Some(name) {
        unbound_reference(rest.skip(close as int + 2), name, keys);
    }
}

} // verus!
