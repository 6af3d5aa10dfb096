//! Verified helpers for building and taking apart strings.
//!
//! The engine's surface is strings: node lists are split on commas, peer
//! lists are rendered as bracketed quoted lists, argument names are
//! lower-cased. Each helper here carries an exact contract over `Seq<char>`
//! views, so every caller's contract can state precisely which string comes
//! out.

use vstd::prelude::*;
use vstd::string::*;

verus! {

/// Relies on std's `String::push`: appends one character at the end.
#[verifier::external_body]
pub fn push_char(s: &mut String, c: char)
    ensures
        final(s)@ == old(s)@.push(c),
{
    s.push(c);
}

/// The characters of `s`, one vector entry per character.
pub fn str_chars(s: &str) -> (v: Vec<char>)
    ensures
        v@ == s@,
{
    let n = s.unicode_len();
    let mut v: Vec<char> = Vec::new();
    let mut i: usize = 0;
    while i < n
        invariant
            n == s@.len(),
            i <= n,
            v@ == s@.take(i as int),
        decreases n - i,
    {
        v.push(s.get_char(i));
        assert(v@ =~= s@.take(i as int + 1));
        i += 1;
    }
    assert(s@.take(n as int) =~= s@);
    v
}

/// The string whose characters are exactly `v`.
pub fn string_from_chars(v: &Vec<char>) -> (s: String)
    ensures
        s@ == v@,
{
    let mut s = String::new();
    let mut i: usize = 0;
    while i < v.len()
        invariant
            i <= v.len(),
            s@ == v@.take(i as int),
        decreases v.len() - i,
    {
        push_char(&mut s, v[i]);
        assert(s@ =~= v@.take(i as int + 1));
        i += 1;
    }
    assert(v@.take(v.len() as int) =~= v@);
    s
}

/// Whether two string slices hold the same characters.
pub fn str_eq(a: &str, b: &str) -> (r: bool)
    ensures
        r == (a@ == b@),
{
    let na = a.unicode_len();
    let nb = b.unicode_len();
    if na != nb {
        return false;
    }
    let mut i: usize = 0;
    while i < na
        invariant
            na == a@.len(),
            nb == b@.len(),
            na == nb,
            i <= na,
            forall|j: int| 0 <= j < i ==> a@[j] == b@[j],
        decreases na - i,
    {
        if a.get_char(i) != b.get_char(i) {
            return false;
        }
        i += 1;
    }
    proof {
        assert(a@ =~= b@);
    }
    true
}

/// `prefix` followed by `s`, as one new string.
pub fn concat_strs(prefix: &str, s: &String) -> (r: String)
    ensures
        r@ == prefix@ + s@,
{
    let r = String::from_str(prefix);
    r.concat(s.as_str())
}

/// `c` lower-cased when it is an ASCII capital letter, `c` itself otherwise.
pub open spec fn lower_char(c: char) -> char {
    if 65 <= c as int && c as int <= 90 {
        ((c as int) + 32) as char
    } else {
        c
    }
}

/// `s` with every ASCII capital letter lower-cased.
pub open spec fn spec_lower(s: Seq<char>) -> Seq<char> {
    s.map_values(|c: char| lower_char(c))
}

/// Executable counterpart of [`lower_char`].
pub fn lower_char_exec(c: char) -> (r: char)
    ensures
        r == lower_char(c),
{
    let u = c as u32;
    if 65 <= u && u <= 90 {
        ((u + 32) as u8) as char
    } else {
        c
    }
}

/// `s` with every ASCII capital letter lower-cased. Characters outside the
/// ASCII range pass through unchanged.
pub fn to_lowercase(s: &str) -> (r: String)
    ensures
        r@ == spec_lower(s@),
{
    let n = s.unicode_len();
    let mut r = String::new();
    let mut i: usize = 0;
    while i < n
        invariant
            n == s@.len(),
            i <= n,
            r@ == spec_lower(s@.take(i as int)),
        decreases n - i,
    {
        let c = lower_char_exec(s.get_char(i));
        push_char(&mut r, c);
        assert(r@ =~= spec_lower(s@.take(i as int + 1)));
        i += 1;
    }
    assert(spec_lower(s@.take(n as int)) =~= spec_lower(s@));
    r
}

/// The pieces of `s` between occurrences of `sep`, in order. A string
/// without `sep` is one piece; every separator opens a new (possibly empty)
/// piece, so the result always holds at least one piece.
pub open spec fn spec_split(s: Seq<char>, sep: char) -> Seq<Seq<char>>
    decreases s.len(),
{
    if s.len() == 0 {
        seq![Seq::<char>::empty()]
    } else if s.last() == sep {
        spec_split(s.drop_last(), sep).push(Seq::<char>::empty())
    } else {
        let r = spec_split(s.drop_last(), sep);
        r.update(r.len() - 1, r.last().push(s.last()))
    }
}

pub proof fn lemma_split_len(s: Seq<char>, sep: char)
    ensures
        spec_split(s, sep).len() >= 1,
    decreases s.len(),
{
    if s.len() > 0 {
        lemma_split_len(s.drop_last(), sep);
    }
}

/// Splits `s` on `sep`, keeping empty pieces, as `str::split` does.
pub fn split_on(s: &str, sep: char) -> (r: Vec<String>)
    ensures
        r.deep_view() == spec_split(s@, sep),
        r.len() >= 1,
{
    let n = s.unicode_len();
    let mut done: Vec<String> = Vec::new();
    let mut cur = String::new();
    let mut i: usize = 0;
    proof {
        assert(done.deep_view().push(cur@) =~= spec_split(s@.take(0), sep));
    }
    while i < n
        invariant
            n == s@.len(),
            i <= n,
            done.deep_view().push(cur@) == spec_split(s@.take(i as int), sep),
        decreases n - i,
    {
        let ghost prev = s@.take(i as int);
        let c = s.get_char(i);
        proof {
            assert(s@.take(i as int + 1).drop_last() =~= prev);
        }
        if c == sep {
            done.push(cur);
            cur = String::new();
            proof {
                assert(done.deep_view().push(cur@) =~= spec_split(s@.take(i as int + 1), sep));
            }
        } else {
            push_char(&mut cur, c);
            proof {
                let r = spec_split(prev, sep);
                lemma_split_len(prev, sep);
                assert(done.deep_view().push(cur@) =~= r.update(r.len() - 1, r.last().push(c)));
            }
        }
        i += 1;
    }
    assert(s@.take(n as int) =~= s@);
    done.push(cur);
    assert(done.deep_view() =~= spec_split(s@, sep));
    done
}

/// The pieces of `list` laid end to end with `sep` between consecutive
/// pieces.
pub open spec fn seq_join(list: Seq<Seq<char>>, sep: Seq<char>) -> Seq<char>
    decreases list.len(),
{
    if list.len() == 0 {
        Seq::<char>::empty()
    } else if list.len() == 1 {
        list[0]
    } else {
        seq_join(list.drop_last(), sep) + sep + list.last()
    }
}

/// Joins the strings of `list` with `sep` between consecutive entries.
pub fn join_with(list: &Vec<String>, sep: &str) -> (r: String)
    ensures
        r@ == seq_join(list.deep_view(), sep@),
{
    let mut r = String::new();
    let mut i: usize = 0;
    proof {
        assert(list.deep_view().take(0) =~= Seq::<Seq<char>>::empty());
    }
    while i < list.len()
        invariant
            i <= list.len(),
            list.deep_view().len() == list.len(),
            r@ == seq_join(list.deep_view().take(i as int), sep@),
        decreases list.len() - i,
    {
        if i != 0 {
            let r2 = r.concat(sep);
            r = r2.concat(list[i].as_str());
        } else {
            r = r.concat(list[i].as_str());
        }
        proof {
            let dv = list.deep_view();
            assert(dv.take(i as int + 1).drop_last() =~= dv.take(i as int));
            assert(dv.take(i as int + 1).last() == dv[i as int]);
        }
        i += 1;
    }
    assert(list.deep_view().take(list.len() as int) =~= list.deep_view());
    r
}

/// Whether `needle` stands in `hay` beginning at position `k`.
pub open spec fn contains_at(hay: Seq<char>, needle: Seq<char>, k: int) -> bool {
    0 <= k && k + needle.len() <= hay.len() && hay.subrange(k, k + needle.len()) == needle
}

/// Whether `needle` stands somewhere in `hay`.
pub open spec fn spec_contains_seq(hay: Seq<char>, needle: Seq<char>) -> bool {
    exists|k: int| contains_at(hay, needle, k)
}

/// Whether `needle` occurs in `hay`.
pub fn str_contains(hay: &str, needle: &str) -> (r: bool)
    ensures
        r == spec_contains_seq(hay@, needle@),
{
    let hn = hay.unicode_len();
    let nn = needle.unicode_len();
    if nn > hn {
        proof {
            if spec_contains_seq(hay@, needle@) {
                let k = choose|k: int| contains_at(hay@, needle@, k);
            }
        }
        return false;
    }
    let hay_chars = str_chars(hay);
    let needle_chars = str_chars(needle);
    let mut k: usize = 0;
    while k <= hn - nn
        invariant
            hay_chars@ == hay@,
            needle_chars@ == needle@,
            hn == hay@.len(),
            nn == needle@.len(),
            nn <= hn,
            k <= hn - nn + 1,
            forall|p: int| 0 <= p < k ==> !contains_at(hay@, needle@, p),
        decreases hn - nn + 1 - k,
    {
        let mut m: usize = 0;
        let mut matches_here = true;
        while m < nn
            invariant
                hay_chars@ == hay@,
                needle_chars@ == needle@,
                hn == hay@.len(),
                nn == needle@.len(),
                k + nn <= hn,
                m <= nn,
                matches_here <==> (forall|j: int|
                    0 <= j < m ==> hay@[k + j] == #[trigger] needle@[j]),
            decreases nn - m,
        {
            if hay_chars[k + m] != needle_chars[m] {
                matches_here = false;
            }
            m += 1;
        }
        if matches_here {
            proof {
                assert(hay@.subrange(k as int, k as int + nn) =~= needle@);
                assert(contains_at(hay@, needle@, k as int));
            }
            return true;
        }
        proof {
            assert(!contains_at(hay@, needle@, k as int)) by {
                if contains_at(hay@, needle@, k as int) {
                    let j = choose|j: int|
                        0 <= j < nn && hay@[k + j] != #[trigger] needle@[j];
                    assert(hay@.subrange(k as int, k as int + nn)[j] == needle@[j]);
                }
            }
        }
        k += 1;
    }
    proof {
        assert(!spec_contains_seq(hay@, needle@)) by {
            if spec_contains_seq(hay@, needle@) {
                let p = choose|p: int| contains_at(hay@, needle@, p);
            }
        }
    }
    false
}

/// Whether a service id matches a command-line pattern: a pattern without a
/// `*` must equal the id, and otherwise every piece of the pattern between
/// the stars must occur somewhere in the id.
pub open spec fn spec_is_match(pattern: Seq<char>, id: Seq<char>) -> bool {
    if !pattern.contains('*') {
        id == pattern
    } else {
        forall|i: int|
            0 <= i < spec_split(pattern, '*').len() ==> spec_contains_seq(
                id,
                #[trigger] spec_split(pattern, '*')[i],
            )
    }
}

/// Whether `service_id` matches the `*` pattern `service_id_match`.
pub fn is_match(service_id_match: &str, service_id: &str) -> (r: bool)
    ensures
        r == spec_is_match(service_id_match@, service_id@),
{
    let n = service_id_match.unicode_len();
    let mut has_star = false;
    let mut i: usize = 0;
    while i < n
        invariant
            n == service_id_match@.len(),
            i <= n,
            has_star <==> (exists|j: int| 0 <= j < i && service_id_match@[j] == '*'),
        decreases n - i,
    {
        if service_id_match.get_char(i) == '*' {
            has_star = true;
        }
        i += 1;
    }
    proof {
        assert(has_star == service_id_match@.contains('*')) by {
            if service_id_match@.contains('*') {
                let j = choose|j: int|
                    0 <= j < service_id_match@.len() && service_id_match@[j] == '*';
            }
            if has_star {
                let j = choose|j: int| 0 <= j < n && service_id_match@[j] == '*';
            }
        }
    }
    if !has_star {
        return str_eq(service_id, service_id_match);
    }
    let parts = split_on(service_id_match, '*');
    let ghost pv = spec_split(service_id_match@, '*');
    let mut p: usize = 0;
    while p < parts.len()
        invariant
            service_id_match@.contains('*'),
            pv == spec_split(service_id_match@, '*'),
            pv == parts.deep_view(),
            pv.len() == parts.len(),
            p <= parts.len(),
            forall|j: int| 0 <= j < p ==> spec_contains_seq(service_id@, #[trigger] pv[j]),
        decreases parts.len() - p,
    {
        proof {
            assert(pv[p as int] == parts@[p as int]@);
        }
        if !str_contains(service_id, parts[p].as_str()) {
            return false;
        }
        p += 1;
    }
    true
}

/// `s` wrapped in double quotes.
pub open spec fn spec_quoted(s: Seq<char>) -> Seq<char> {
    seq!['"'] + s + seq!['"']
}

/// Wraps `s` in double quotes.
pub fn quote(s: &str) -> (r: String)
    ensures
        r@ == spec_quoted(s@),
{
    proof {
        reveal_strlit("\"");
    }
    let r = String::from_str("\"");
    let r = r.concat(s);
    let r = r.concat("\"");
    assert(r@ =~= spec_quoted(s@));
    r
}

/// The items each wrapped in double quotes, joined by commas, and the whole
/// wrapped in square brackets: the engine's rendering of a list value.
pub open spec fn spec_quoted_list(items: Seq<Seq<char>>) -> Seq<char> {
    seq!['['] + seq_join(items.map_values(|s: Seq<char>| spec_quoted(s)), seq![',']) + seq![']']
}

/// Renders `items` as a bracketed, comma-separated list of quoted strings.
pub fn quoted_list(items: &Vec<String>) -> (r: String)
    ensures
        r@ == spec_quoted_list(items.deep_view()),
{
    let mut quoted: Vec<String> = Vec::new();
    let mut i: usize = 0;
    while i < items.len()
        invariant
            i <= items.len(),
            items.deep_view().len() == items.len(),
            quoted.deep_view().len() == i,
            forall|j: int|
                0 <= j < i ==> #[trigger] quoted.deep_view()[j] == spec_quoted(
                    items.deep_view()[j],
                ),
        decreases items.len() - i,
    {
        let ghost prevv = quoted@;
        let ghost prevd = quoted.deep_view();
        quoted.push(quote(items[i].as_str()));
        proof {
            assert(items.deep_view()[i as int] == items@[i as int]@);
            assert forall|j: int| 0 <= j < i + 1 implies #[trigger] quoted.deep_view()[j]
                == spec_quoted(items.deep_view()[j]) by {
                assert(quoted.deep_view()[j] == quoted@[j]@);
                if j < i {
                    assert(quoted@[j] == prevv[j]);
                    assert(prevd[j] == prevv[j]@);
                }
            }
        }
        i += 1;
    }
    proof {
        assert(quoted.deep_view() =~= items.deep_view().map_values(
            |s: Seq<char>| spec_quoted(s),
        ));
        reveal_strlit(",");
        reveal_strlit("[");
        reveal_strlit("]");
        assert(","@ =~= seq![',']);
    }
    let joined = join_with(&quoted, ",");
    let r = String::from_str("[");
    let r = r.concat(joined.as_str());
    let r = r.concat("]");
    assert(r@ =~= spec_quoted_list(items.deep_view()));
    r
}

/// One character's rendering inside a debug-style quoted string: `"` and
/// `\` gain a backslash, every other character stands as itself.
pub open spec fn esc_char(c: char) -> Seq<char> {
    if c == '"' || c == '\\' {
        seq!['\\', c]
    } else {
        seq![c]
    }
}

/// `s` with `"` and `\` escaped by a backslash.
pub open spec fn spec_escaped(s: Seq<char>) -> Seq<char>
    decreases s.len(),
{
    if s.len() == 0 {
        Seq::<char>::empty()
    } else {
        spec_escaped(s.drop_last()) + esc_char(s.last())
    }
}

/// Escapes `"` and `\` in `s` with a backslash.
pub fn escape(s: &str) -> (r: String)
    ensures
        r@ == spec_escaped(s@),
{
    let n = s.unicode_len();
    let mut r = String::new();
    let mut i: usize = 0;
    while i < n
        invariant
            n == s@.len(),
            i <= n,
            r@ == spec_escaped(s@.take(i as int)),
        decreases n - i,
    {
        let c = s.get_char(i);
        proof {
            assert(s@.take(i as int + 1).drop_last() =~= s@.take(i as int));
        }
        if c == '"' || c == '\\' {
            push_char(&mut r, '\\');
            push_char(&mut r, c);
        } else {
            push_char(&mut r, c);
        }
        assert(r@ =~= spec_escaped(s@.take(i as int + 1)));
        i += 1;
    }
    assert(s@.take(n as int) =~= s@);
    r
}

/// The items escaped and quoted, joined by `", "`, the whole in square
/// brackets: how std's debug formatting renders a vector of strings.
pub open spec fn spec_debug_list(items: Seq<Seq<char>>) -> Seq<char> {
    seq!['['] + seq_join(
        items.map_values(|s: Seq<char>| spec_quoted(spec_escaped(s))),
        seq![',', ' '],
    ) + seq![']']
}

/// Renders `items` in the engine's debug-style list form: each item quoted
/// with `"` and `\` escaped by a backslash, separated by a comma and a
/// space, in square brackets. No other character is escaped.
pub fn debug_list(items: &Vec<String>) -> (r: String)
    ensures
        r@ == spec_debug_list(items.deep_view()),
{
    let mut quoted: Vec<String> = Vec::new();
    let mut i: usize = 0;
    while i < items.len()
        invariant
            i <= items.len(),
            items.deep_view().len() == items.len(),
            quoted.deep_view().len() == i,
            forall|j: int|
                0 <= j < i ==> #[trigger] quoted.deep_view()[j] == spec_quoted(
                    spec_escaped(items.deep_view()[j]),
                ),
        decreases items.len() - i,
    {
        let escaped = escape(items[i].as_str());
        let ghost prevv = quoted@;
        let ghost prevd = quoted.deep_view();
        quoted.push(quote(escaped.as_str()));
        proof {
            assert(items.deep_view()[i as int] == items@[i as int]@);
            assert forall|j: int| 0 <= j < i + 1 implies #[trigger] quoted.deep_view()[j]
                == spec_quoted(spec_escaped(items.deep_view()[j])) by {
                assert(quoted.deep_view()[j] == quoted@[j]@);
                if j < i {
                    assert(quoted@[j] == prevv[j]);
                    assert(prevd[j] == prevv[j]@);
                }
            }
        }
        i += 1;
    }
    proof {
        assert(quoted.deep_view() =~= items.deep_view().map_values(
            |s: Seq<char>| spec_quoted(spec_escaped(s)),
        ));
        reveal_strlit(", ");
        reveal_strlit("[");
        reveal_strlit("]");
        assert(", "@ =~= seq![',', ' ']);
    }
    let joined = join_with(&quoted, ", ");
    let r = String::from_str("[");
    let r = r.concat(joined.as_str());
    let r = r.concat("]");
    assert(r@ =~= spec_debug_list(items.deep_view()));
    r
}

} // verus!
