//! Verified text manipulation: placeholder substitution in raw templates,
//! truncation of a group name at its first dot, and the concatenation that
//! assembles an SVG string from attribute and element fragments.

use vstd::prelude::*;

verus! {

/// The literal placeholder token that raw templates substitute.
pub open spec fn placeholder() -> Seq<char> {
    seq!['{', 'v', 'a', 'l', 'u', 'e', '}']
}

/// The placeholder occurs in `t` starting at position `i`.
pub open spec fn placeholder_at(t: Seq<char>, i: int) -> bool {
    0 <= i && i + 7 <= t.len() && t.subrange(i, i + 7) == placeholder()
}

/// `t` with every occurrence of the placeholder replaced by `rep`,
/// scanning left to right, occurrences not overlapping.
pub open spec fn replace_value(t: Seq<char>, rep: Seq<char>) -> Seq<char>
    decreases t.len(),
{
    if t.len() == 0 {
        Seq::empty()
    } else if placeholder_at(t, 0) {
        rep + replace_value(t.skip(7), rep)
    } else {
        seq![t[0]] + replace_value(t.skip(1), rep)
    }
}

/// Substitution from position `i` of `t` onward.
fn replace_from(t: &str, i: usize, rep: &str) -> (r: String)
    requires
        i <= t@.len(),
    ensures
        r@ == replace_value(t@.skip(i as int), rep@),
    decreases t@.len() - i@,
{
    let n = t.unicode_len();
    if i == n {
        proof {
            assert(t@.skip(i as int) =~= Seq::<char>::empty());
        }
        String::new()
    } else if n - i >= 7 && t.get_char(i) == '{' && t.get_char(i + 1) == 'v' && t.get_char(i + 2)
        == 'a' && t.get_char(i + 3) == 'l' && t.get_char(i + 4) == 'u' && t.get_char(i + 5) == 'e'
        && t.get_char(i + 6) == '}' {
        proof {
            assert(t@.skip(i as int).subrange(0, 7) =~= placeholder());
            assert(placeholder_at(t@.skip(i as int), 0));
            assert(t@.skip(i as int).skip(7) =~= t@.skip(i + 7));
        }
        let mut s = String::from_str(rep);
        let rest = replace_from(t, i + 7, rep);
        s.append(rest.as_str());
        s
    } else {
        proof {
            let su = t@.skip(i as int);
            if placeholder_at(su, 0) {
                assert(su.subrange(0, 7) == placeholder());
                assert(forall|k: int| 0 <= k < 7 ==> su.subrange(0, 7)[k] == su[k]);
                assert(false);
            }
            assert(t@.skip(i as int).skip(1) =~= t@.skip(i + 1));
        }
        let head = t.substring_char(i, i + 1);
        let mut s = head.to_owned();
        let rest = replace_from(t, i + 1, rep);
        s.append(rest.as_str());
        proof {
            assert(head@ =~= seq![t@.skip(i as int)[0]]);
        }
        s
    }
}

/// `template` with every occurrence of the literal `{value}` replaced by
/// `rep`.
pub fn replace_placeholder(template: &str, rep: &str) -> (r: String)
    ensures
        r@ == replace_value(template@, rep@),
{
    let r = replace_from(template, 0, rep);
    proof {
        assert(template@.skip(0) =~= template@);
    }
    r
}

/// No occurrence of the placeholder starts within the first `bound`
/// positions of `t`.
pub open spec fn placeholder_free_until(t: Seq<char>, bound: int) -> bool {
    forall|i: int| 0 <= i < bound ==> !placeholder_at(t, i)
}

/// No occurrence of the placeholder anywhere in `t`.
pub open spec fn placeholder_free(t: Seq<char>) -> bool {
    placeholder_free_until(t, t.len() as int)
}

/// Substitution walks over a prefix that starts no occurrence: the prefix is
/// emitted verbatim and substitution continues on the remainder. Together
/// with `lemma_replace_at_occurrence` this pins down that every occurrence,
/// and nothing else, is replaced.
pub proof fn lemma_replace_skips_clean_prefix(a: Seq<char>, b: Seq<char>, rep: Seq<char>)
    requires
        placeholder_free_until(a + b, a.len() as int),
    ensures
        replace_value(a + b, rep) == a + replace_value(b, rep),
    decreases a.len(),
{
    let t = a + b;
    if a.len() == 0 {
        assert(t =~= b);
        assert(a + replace_value(b, rep) =~= replace_value(b, rep));
    } else {
        assert(!placeholder_at(t, 0));
        assert(t.len() > 0);
        assert(t.skip(1) =~= a.skip(1) + b);
        assert forall|i: int| 0 <= i < a.skip(1).len() implies !placeholder_at(
            a.skip(1) + b,
            i,
        ) by {
            assert(!placeholder_at(t, i + 1));
            if placeholder_at(a.skip(1) + b, i) {
                assert((a.skip(1) + b).subrange(i, i + 7) =~= t.subrange(i + 1, i + 8));
            }
        }
        lemma_replace_skips_clean_prefix(a.skip(1), b, rep);
        assert(replace_value(t, rep) == seq![t[0]] + (a.skip(1) + replace_value(b, rep)));
        assert(seq![t[0]] + (a.skip(1) + replace_value(b, rep)) =~= a + replace_value(b, rep));
    }
}

/// At an occurrence of the placeholder, substitution emits `rep` and
/// continues after the occurrence.
pub proof fn lemma_replace_at_occurrence(b: Seq<char>, rep: Seq<char>)
    requires
        placeholder_at(b, 0),
    ensures
        replace_value(b, rep) == rep + replace_value(b.skip(7), rep),
{
}

/// A template without any occurrence of the placeholder is emitted verbatim:
/// substitution changes nothing.
pub proof fn lemma_replace_no_occurrence(t: Seq<char>, rep: Seq<char>)
    requires
        placeholder_free(t),
    ensures
        replace_value(t, rep) == t,
{
    lemma_replace_skips_clean_prefix(t, Seq::empty(), rep);
    assert(t + Seq::<char>::empty() =~= t);
    assert(t + replace_value(Seq::empty(), rep) =~= t);
}

/// Character-for-character string equality.
pub(crate) fn str_eq(a: &str, b: &str) -> (r: bool)
    ensures
        r == (a@ == b@),
{
    let n = a.unicode_len();
    if n != b.unicode_len() {
        return false;
    }
    let mut i: usize = 0;
    while i < n
        invariant
            i <= n,
            n == a@.len(),
            n == b@.len(),
            forall|k: int| 0 <= k < i ==> a@[k] == b@[k],
        decreases n - i,
    {
        if a.get_char(i) != b.get_char(i) {
            return false;
        }
        i = i + 1;
    }
    proof {
        assert(a@ =~= b@);
    }
    true
}

/// The group name's prefix before its first `.`; the whole name when it
/// holds no `.`.
pub open spec fn prefix_before_dot(s: Seq<char>) -> Seq<char>
    decreases s.len(),
{
    if s.len() == 0 {
        s
    } else if s[0] == '.' {
        Seq::empty()
    } else {
        seq![s[0]] + prefix_before_dot(s.skip(1))
    }
}

proof fn lemma_prefix_before_dot_take(s: Seq<char>, i: int)
    requires
        0 <= i <= s.len(),
        forall|k: int| 0 <= k < i ==> s[k] != '.',
        i == s.len() || s[i] == '.',
    ensures
        prefix_before_dot(s) == s.subrange(0, i),
    decreases i,
{
    if i == 0 {
        assert(s.subrange(0, 0) =~= Seq::<char>::empty());
        if s.len() != 0 {
            assert(s[0] == '.');
        }
    } else {
        assert(s[0] != '.');
        lemma_prefix_before_dot_take(s.skip(1), i - 1);
        assert(seq![s[0]] + s.skip(1).subrange(0, i - 1) =~= s.subrange(0, i));
    }
}

/// The group name truncated at its first `.` character.
pub fn truncate_at_dot(name: &str) -> (r: String)
    ensures
        r@ == prefix_before_dot(name@),
{
    let n = name.unicode_len();
    let mut i: usize = 0;
    while i < n && name.get_char(i) != '.'
        invariant
            i <= n,
            n == name@.len(),
            forall|k: int| 0 <= k < i ==> name@[k] != '.',
        decreases n - i,
    {
        i = i + 1;
    }
    proof {
        lemma_prefix_before_dot_take(name@, i as int);
    }
    name.substring_char(0, i).to_owned()
}

/// The concatenation of attribute fragments, each preceded by one space.
pub open spec fn attrs_concat(attrs: Seq<Seq<char>>) -> Seq<char>
    decreases attrs.len(),
{
    if attrs.len() == 0 {
        Seq::empty()
    } else {
        seq![' '] + attrs[0] + attrs_concat(attrs.skip(1))
    }
}

/// The concatenation of element fragments, in order, nothing between them.
pub open spec fn elems_concat(elems: Seq<Seq<char>>) -> Seq<char>
    decreases elems.len(),
{
    if elems.len() == 0 {
        Seq::empty()
    } else {
        elems[0] + elems_concat(elems.skip(1))
    }
}

pub proof fn lemma_attrs_concat_push(s: Seq<Seq<char>>, x: Seq<char>)
    ensures
        attrs_concat(s.push(x)) == attrs_concat(s) + seq![' '] + x,
    decreases s.len(),
{
    if s.len() == 0 {
        assert(s.push(x).skip(1) =~= s);
        assert(attrs_concat(s) == Seq::<char>::empty());
        assert(attrs_concat(s.push(x)) == seq![' '] + x + attrs_concat(s));
        assert(seq![' '] + x + attrs_concat(s) =~= attrs_concat(s) + seq![' '] + x);
    } else {
        assert(s.push(x).skip(1) =~= s.skip(1).push(x));
        lemma_attrs_concat_push(s.skip(1), x);
        assert(seq![' '] + s[0] + (attrs_concat(s.skip(1)) + seq![' '] + x) =~= attrs_concat(s)
            + seq![' '] + x);
    }
}

pub proof fn lemma_elems_concat_push(s: Seq<Seq<char>>, x: Seq<char>)
    ensures
        elems_concat(s.push(x)) == elems_concat(s) + x,
    decreases s.len(),
{
    if s.len() == 0 {
        assert(s.push(x).skip(1) =~= s);
        assert(elems_concat(s) == Seq::<char>::empty());
        assert(elems_concat(s.push(x)) == x + elems_concat(s));
        assert(x + elems_concat(s) =~= elems_concat(s) + x);
    } else {
        assert(s.push(x).skip(1) =~= s.skip(1).push(x));
        lemma_elems_concat_push(s.skip(1), x);
        assert(s[0] + (elems_concat(s.skip(1)) + x) =~= elems_concat(s) + x);
    }
}

/// The assembled SVG string of one group: `<svg`, each attribute fragment
/// preceded by a space, `>`, the element fragments in order, `</svg>`.
pub open spec fn svg_of(attrs: Seq<Seq<char>>, elems: Seq<Seq<char>>) -> Seq<char> {
    "<svg"@ + attrs_concat(attrs) + ">"@ + elems_concat(elems) + "</svg>"@
}

/// Assembles one group's SVG string from its collected fragments.
pub fn assemble_svg(attrs: &Vec<String>, elems: &Vec<String>) -> (r: String)
    ensures
        r@ == svg_of(attrs.deep_view(), elems.deep_view()),
{
    let mut content = String::from_str("<svg");
    let mut i: usize = 0;
    while i < attrs.len()
        invariant
            i <= attrs.len(),
            content@ == "<svg"@ + attrs_concat(attrs.deep_view().take(i as int)),
        decreases attrs.len() - i,
    {
        proof {
            lemma_attrs_concat_push(attrs.deep_view().take(i as int), attrs.deep_view()[i as int]);
            assert(attrs.deep_view().take(i as int).push(attrs.deep_view()[i as int])
                =~= attrs.deep_view().take(i + 1));
        }
        content.append(" ");
        content.append(attrs[i].as_str());
        proof {
            reveal_strlit(" ");
            assert(" "@ =~= seq![' ']);
        }
        i = i + 1;
    }
    proof {
        assert(attrs.deep_view().take(attrs.deep_view().len() as int) =~= attrs.deep_view());
    }
    content.append(">");
    let mut j: usize = 0;
    while j < elems.len()
        invariant
            j <= elems.len(),
            content@ == "<svg"@ + attrs_concat(attrs.deep_view()) + ">"@ + elems_concat(
                elems.deep_view().take(j as int),
            ),
        decreases elems.len() - j,
    {
        proof {
            lemma_elems_concat_push(elems.deep_view().take(j as int), elems.deep_view()[j as int]);
            assert(elems.deep_view().take(j as int).push(elems.deep_view()[j as int])
                =~= elems.deep_view().take(j + 1));
        }
        content.append(elems[j].as_str());
        j = j + 1;
    }
    proof {
        assert(elems.deep_view().take(elems.deep_view().len() as int) =~= elems.deep_view());
    }
    content.append("</svg>");
    content
}

} // verus!
