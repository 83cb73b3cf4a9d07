//! Text helpers: whitespace trimming and the small JSON shapes the engine
//! answers with (strings are written between quotes as they are, unescaped).

use vstd::prelude::*;

verus! {

/// Unicode `White_Space`, the property by which `str::trim` trims.
pub open spec fn is_white_space(c: char) -> bool {
    let u = c as u32;
    ||| 0x9 <= u <= 0xD
    ||| u == 0x20
    ||| u == 0x85
    ||| u == 0xA0
    ||| u == 0x1680
    ||| 0x2000 <= u <= 0x200A
    ||| u == 0x2028
    ||| u == 0x2029
    ||| u == 0x202F
    ||| u == 0x205F
    ||| u == 0x3000
}

/// `s` without its leading whitespace.
pub open spec fn trim_start(s: Seq<char>) -> Seq<char>
    decreases s.len(),
{
    if s.len() > 0 && is_white_space(s[0]) {
        trim_start(s.drop_first())
    } else {
        s
    }
}

/// `s` without its trailing whitespace.
pub open spec fn trim_end(s: Seq<char>) -> Seq<char>
    decreases s.len(),
{
    if s.len() > 0 && is_white_space(s.last()) {
        trim_end(s.drop_last())
    } else {
        s
    }
}

/// `s` without leading and trailing whitespace.
pub open spec fn trimmed(s: Seq<char>) -> Seq<char> {
    trim_end(trim_start(s))
}

/// Whether `c` is Unicode `White_Space` (see `is_white_space`).
pub fn is_space(c: char) -> (res: bool)
    ensures
        res == is_white_space(c),
{
    let u = c as u32;
    (0x9 <= u && u <= 0xD) || u == 0x20 || u == 0x85 || u == 0xA0 || u == 0x1680 || (0x2000 <= u
        && u <= 0x200A) || u == 0x2028 || u == 0x2029 || u == 0x202F || u == 0x205F || u == 0x3000
}

/// `text` without leading and trailing Unicode `White_Space`, as `str::trim`
/// gives it.
pub fn trim(text: &str) -> (res: &str)
    ensures
        res@ == trimmed(text@),
{
    let n = text.unicode_len();
    let mut start: usize = 0;
    assert(text@.subrange(0, n as int) =~= text@);
    while start < n && is_space(text.get_char(start))
        invariant
            start <= n,
            n == text@.len(),
            trim_start(text@) == trim_start(text@.subrange(start as int, n as int)),
        decreases n - start,
    {
        let ghost rest = text@.subrange(start as int, n as int);
        assert(rest.drop_first() =~= text@.subrange(start + 1, n as int));
        start = start + 1;
    }
    assert(trim_start(text@) == text@.subrange(start as int, n as int)) by {
        if start == n {
            assert(text@.subrange(start as int, n as int).len() == 0);
        }
    }
    let mut end: usize = n;
    while end > start && is_space(text.get_char(end - 1))
        invariant
            start <= end <= n,
            n == text@.len(),
            trim_end(text@.subrange(start as int, n as int)) == trim_end(text@.subrange(start as int, end as int)),
        decreases end - start,
    {
        let ghost rest = text@.subrange(start as int, end as int);
        assert(rest.drop_last() =~= text@.subrange(start as int, end - 1));
        end = end - 1;
    }
    assert(trim_end(text@.subrange(start as int, end as int)) == text@.subrange(start as int, end as int)) by {
        if end == start {
            assert(text@.subrange(start as int, end as int).len() == 0);
        }
    }
    text.substring_char(start, end)
}

/// `s` between double quotes.
pub open spec fn quoted(s: Seq<char>) -> Seq<char> {
    seq!['"'] + s + seq!['"']
}

/// The items separated by commas.
pub open spec fn comma_joined(items: Seq<Seq<char>>) -> Seq<char>
    decreases items.len(),
{
    if items.len() == 0 {
        Seq::empty()
    } else if items.len() == 1 {
        items[0]
    } else {
        comma_joined(items.drop_last()) + seq![','] + items.last()
    }
}

/// A JSON array whose items are already written out.
pub open spec fn bracketed(items: Seq<Seq<char>>) -> Seq<char> {
    seq!['['] + comma_joined(items) + seq![']']
}

/// A JSON array of the given strings.
pub open spec fn string_list_text(items: Seq<Seq<char>>) -> Seq<char> {
    bracketed(items.map_values(|t: Seq<char>| quoted(t)))
}

/// The texts of a list of strings.
pub open spec fn texts(v: Seq<String>) -> Seq<Seq<char>> {
    v.map_values(|s: String| s@)
}

/// A JSON array of already written items.
pub fn json_array(items: &Vec<String>) -> (res: String)
    ensures
        res@ == bracketed(texts(items@)),
{
    let mut out = String::new();
    proof { reveal_strlit("["); reveal_strlit("]"); reveal_strlit(","); }
    out.append("[");
    let n = items.len();
    let ghost all = texts(items@);
    let mut i: usize = 0;
    while i < n
        invariant
            n == items.len(),
            all == texts(items@),
            i <= n,
            out@ == seq!['['] + comma_joined(all.take(i as int)),
        decreases n - i,
    {
        let ghost prev = out@;
        proof { reveal_strlit(","); }
        if i > 0 {
            out.append(",");
        }
        out.append(items[i].as_str());
        proof {
            let t = all.take(i + 1);
            assert(t.drop_last() =~= all.take(i as int));
            assert(t.last() == items@[i as int]@);
            if i == 0 {
                assert(t.len() == 1);
                assert(comma_joined(all.take(0)) =~= Seq::<char>::empty());
                assert(out@ =~= seq!['['] + comma_joined(t));
            } else {
                assert(comma_joined(t) == comma_joined(all.take(i as int)) + seq![','] + t.last());
                assert(out@ =~= seq!['['] + comma_joined(t));
            }
        }
        i += 1;
    }
    assert(all.take(n as int) =~= all);
    out.append("]");
    out
}

/// A list of strings as a JSON array of strings.
pub fn json_string_array(items: &Vec<String>) -> (res: String)
    ensures
        res@ == string_list_text(texts(items@)),
{
    let mut quoted_items: Vec<String> = Vec::new();
    let n = items.len();
    let mut i: usize = 0;
    proof { reveal_strlit("\""); }
    while i < n
        invariant
            n == items.len(),
            i <= n,
            quoted_items.len() == i,
            forall|k: int| 0 <= k < i ==> #[trigger] quoted_items@[k]@ == quoted(items@[k]@),
        decreases n - i,
    {
        let mut q = String::new();
        proof { reveal_strlit("\""); }
        q.append("\"");
        q.append(items[i].as_str());
        q.append("\"");
        assert(q@ =~= quoted(items@[i as int]@));
        let ghost before = quoted_items@;
        quoted_items.push(q);
        assert(forall|k: int| 0 <= k < i ==> quoted_items@[k] == before[k]);
        i += 1;
    }
    let res = json_array(&quoted_items);
    assert(texts(quoted_items@) =~= texts(items@).map_values(|t: Seq<char>| quoted(t)));
    res
}

} // verus!
