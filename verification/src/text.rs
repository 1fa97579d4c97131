//! Operations on text, each stated over the characters of the text.

use vstd::prelude::*;

verus! {

/// `part` occurs in `text`, one character after the other.
pub open spec fn contains_text(text: Seq<char>, part: Seq<char>) -> bool {
    exists|i: int|
        0 <= i <= text.len() - part.len() && #[trigger] text.subrange(i, i + part.len()) == part
}

/// `text` with every occurrence of `c` written twice.
pub open spec fn doubled(text: Seq<char>, c: char) -> Seq<char>
    decreases text.len(),
{
    if text.len() == 0 {
        text
    } else if text.last() == c {
        doubled(text.drop_last(), c).push(c).push(c)
    } else {
        doubled(text.drop_last(), c).push(text.last())
    }
}

/// The characters of a text.
pub fn to_chars(text: &str) -> (res: Vec<char>)
    ensures
        res@ == text@,
{
    let mut chars: Vec<char> = Vec::new();
    for c in it: text.chars()
        invariant
            it.seq() == text@,
            chars@ == text@.take(it.index() as int),
    {
        chars.push(c);
        assert(chars@ =~= text@.take(it.index() as int + 1));
    }
    assert(text@.take(text@.len() as int) =~= text@);
    chars
}

/// Whether `part` occurs in `text`.
pub fn contains(text: &str, part: &str) -> (res: bool)
    ensures
        res == contains_text(text@, part@),
{
    let text_chars = to_chars(text);
    let part_chars = to_chars(part);
    if part_chars.len() > text_chars.len() {
        return false;
    }
    let last: usize = text_chars.len() - part_chars.len();
    let mut i: usize = 0;
    while i <= last
        invariant
            i <= last + 1,
            last == text@.len() - part@.len(),
            last < usize::MAX || part@.len() == 0,
            text_chars@ == text@,
            part_chars@ == part@,
            forall|k: int| 0 <= k < i ==> #[trigger] text@.subrange(k, k + part@.len()) != part@,
        decreases last + 1 - i,
    {
        let mut j: usize = 0;
        while j < part_chars.len() && text_chars[i + j] == part_chars[j]
            invariant
                i + part_chars.len() <= text_chars.len(),
                text_chars@ == text@,
                part_chars@ == part@,
                j <= part@.len(),
                forall|k: int| 0 <= k < j ==> text@[i + k] == #[trigger] part@[k],
            decreases part@.len() - j,
        {
            j = j + 1;
        }
        if j == part_chars.len() {
            assert(text@.subrange(i as int, i + part@.len()) =~= part@);
            return true;
        }
        proof {
            let window = text@.subrange(i as int, i + part@.len());
            assert(window[j as int] == text@[i + j]);
            assert(window != part@);
        }
        i = i + 1;
    }
    false
}

/// Writes every occurrence of `c` twice.
pub fn double(text: &str, c: char) -> (res: String)
    ensures
        res@ == doubled(text@, c),
{
    let chars = to_chars(text);
    let mut res = String::new();
    let mut i: usize = 0;
    while i < chars.len()
        invariant
            i <= chars.len(),
            chars@ == text@,
            res@ == doubled(text@.take(i as int), c),
        decreases chars.len() - i,
    {
        let ghost done = text@.take(i as int + 1);
        assert(done.drop_last() =~= text@.take(i as int));
        res.push(chars[i]);
        if chars[i] == c {
            res.push(c);
        }
        i = i + 1;
    }
    assert(text@.take(text@.len() as int) =~= text@);
    res
}

/// `text` read from the front, where `c` written twice stands for one `c`.
pub open spec fn halved(text: Seq<char>, c: char) -> Seq<char>
    decreases text.len(),
{
    if text.len() == 0 {
        text
    } else if text.len() >= 2 && text[0] == c && text[1] == c {
        seq![c] + halved(text.skip(2), c)
    } else {
        seq![text[0]] + halved(text.skip(1), c)
    }
}

/// In `text`, read from the front, every `c` is followed by its twin.
pub open spec fn is_paired(text: Seq<char>, c: char) -> bool
    decreases text.len(),
{
    if text.len() == 0 {
        true
    } else if text[0] == c {
        text.len() >= 2 && text[1] == c && is_paired(text.skip(2), c)
    } else {
        is_paired(text.skip(1), c)
    }
}

/// A character as it stands in a text whose `quoted` characters are doubled.
spec fn twice_if(c: char, quoted: char) -> Seq<char> {
    if c == quoted {
        seq![c, c]
    } else {
        seq![c]
    }
}

/// Doubling can be done from the front as well.
proof fn lemma_doubled_front(text: Seq<char>, c: char)
    requires
        text.len() > 0,
    ensures
        doubled(text, c) == twice_if(text[0], c) + doubled(text.skip(1), c),
    decreases text.len(),
{
    let rest = text.skip(1);
    if text.len() == 1 {
        reveal_with_fuel(doubled, 2);
        assert(text.drop_last().len() == 0);
        assert(rest.len() == 0);
        assert(doubled(text, c) =~= twice_if(text[0], c) + doubled(rest, c));
    } else {
        lemma_doubled_front(text.drop_last(), c);
        assert(text.drop_last().skip(1) =~= rest.drop_last());
        assert(rest.last() == text.last());
        assert(doubled(text, c) =~= twice_if(text[0], c) + doubled(rest, c));
    }
}

/// What was doubled can be read back.
pub proof fn doubling_can_be_undone(text: Seq<char>, c: char)
    ensures
        halved(doubled(text, c), c) == text,
    decreases text.len(),
{
    if text.len() > 0 {
        let rest = text.skip(1);
        lemma_doubled_front(text, c);
        doubling_can_be_undone(rest, c);
        let all = doubled(text, c);
        if text[0] == c {
            assert(all.skip(2) =~= doubled(rest, c));
        } else {
            assert(all.skip(1) =~= doubled(rest, c));
        }
        assert(halved(all, c) =~= seq![text[0]] + rest);
        assert(seq![text[0]] + rest =~= text);
    }
}

/// In a text whose `c` are doubled, every `c` is followed by its twin.
pub proof fn doubling_pairs(text: Seq<char>, c: char)
    ensures
        is_paired(doubled(text, c), c),
    decreases text.len(),
{
    if text.len() > 0 {
        let rest = text.skip(1);
        lemma_doubled_front(text, c);
        doubling_pairs(rest, c);
        let all = doubled(text, c);
        if text[0] == c {
            assert(all.skip(2) =~= doubled(rest, c));
        } else {
            assert(all.skip(1) =~= doubled(rest, c));
        }
    }
}

/// Doubling a character leaves the pairs of another character as they are.
pub proof fn doubling_keeps_pairs(text: Seq<char>, other: char, c: char)
    requires
        other != c,
        is_paired(text, c),
    ensures
        is_paired(doubled(text, other), c),
    decreases text.len(),
{
    if text.len() > 0 {
        let rest = text.skip(1);
        let all = doubled(text, other);
        lemma_doubled_front(text, other);
        if text[0] == c {
            lemma_doubled_front(rest, other);
            assert(rest.skip(1) =~= text.skip(2));
            doubling_keeps_pairs(text.skip(2), other, c);
            assert(all.skip(2) =~= doubled(text.skip(2), other));
        } else {
            doubling_keeps_pairs(rest, other, c);
            if text[0] == other {
                assert(all.skip(1).skip(1) =~= doubled(rest, other));
                assert(all.skip(1)[0] == other);
                assert(is_paired(all.skip(1), c));
            } else {
                assert(all.skip(1) =~= doubled(rest, other));
            }
        }
    }
}

/// The parts of a text between the occurrences of `c`.
pub open spec fn cut(text: Seq<char>, c: char) -> Seq<Seq<char>>
    decreases text.len(),
{
    if text.len() == 0 {
        seq![Seq::empty()]
    } else {
        let rest = cut(text.skip(1), c);
        if text[0] == c {
            seq![Seq::empty()] + rest
        } else {
            rest.update(0, seq![text[0]] + rest[0])
        }
    }
}

/// A text has at least one part.
proof fn lemma_cut_some(text: Seq<char>, c: char)
    ensures
        cut(text, c).len() > 0,
    decreases text.len(),
{
    if text.len() > 0 {
        lemma_cut_some(text.skip(1), c);
    }
}

/// A text without `c` is its only part.
pub proof fn lemma_cut_none(text: Seq<char>, c: char)
    requires
        !text.contains(c),
    ensures
        cut(text, c) == seq![text],
    decreases text.len(),
{
    if text.len() > 0 {
        let rest = text.skip(1);
        assert(text.contains(text[0]));
        assert(!rest.contains(c)) by {
            if rest.contains(c) {
                let k = rest.index_of(c);
                assert(text[k + 1] == c);
            }
        }
        lemma_cut_none(rest, c);
        assert(seq![text[0]] + rest =~= text);
        assert(cut(text, c) =~= seq![text]);
    } else {
        assert(text =~= Seq::empty());
    }
}

/// What stands before the first `c` is the first part.
pub proof fn lemma_cut_first(part: Seq<char>, rest: Seq<char>, c: char)
    requires
        !part.contains(c),
    ensures
        cut(part + seq![c] + rest, c) == seq![part] + cut(rest, c),
    decreases part.len(),
{
    let text = part + seq![c] + rest;
    lemma_cut_some(rest, c);
    if part.len() == 0 {
        assert(text.skip(1) =~= rest);
        assert(part =~= Seq::empty());
        assert(cut(text, c) =~= seq![part] + cut(rest, c));
    } else {
        let shorter = part.skip(1);
        assert(part.contains(part[0]));
        assert(!shorter.contains(c)) by {
            if shorter.contains(c) {
                let k = shorter.index_of(c);
                assert(part[k + 1] == c);
            }
        }
        lemma_cut_first(shorter, rest, c);
        assert(text.skip(1) =~= shorter + seq![c] + rest);
        assert(seq![part[0]] + shorter =~= part);
        assert(cut(text, c) =~= seq![part] + cut(rest, c));
    }
}

/// The text holds the part: something may stand before it and after it.
pub open spec fn holds(text: Seq<char>, part: Seq<char>) -> bool {
    exists|before: Seq<char>, after: Seq<char>| text == #[trigger] ((before + part) + after)
}

/// `contains` finds a part exactly where a text holds it.
pub proof fn parts_are_found_where_they_are(text: &str, part: &str, res: bool)
    requires
        call_ensures(contains, (text, part), res),
    ensures
        res <==> holds(text@, part@),
{
    lemma_holds(text@, part@);
}

/// A text holds a part exactly where the part is a range of it.
pub proof fn lemma_holds(text: Seq<char>, part: Seq<char>)
    ensures
        contains_text(text, part) <==> holds(text, part),
{
    if contains_text(text, part) {
        let i = choose|i: int|
            0 <= i <= text.len() - part.len() && #[trigger] text.subrange(i, i + part.len())
                == part;
        let before = text.subrange(0, i);
        let after = text.subrange(i + part.len(), text.len() as int);
        assert(text =~= (before + part) + after);
    }
    if holds(text, part) {
        let (before, after) = choose|before: Seq<char>, after: Seq<char>|
            text == #[trigger] ((before + part) + after);
        let i = before.len() as int;
        assert(text.subrange(i, i + part.len()) =~= part);
    }
}

/// The doubling of a text is the one text whose `c` are paired and that reads
/// back as the text.
pub proof fn doubling_is_determined(text: &str, c: char, res: String)
    requires
        call_ensures(double, (text, c), res),
    ensures
        is_paired(res@, c),
        halved(res@, c) == text@,
{
    doubling_pairs(text@, c);
    doubling_can_be_undone(text@, c);
}

} // verus!
