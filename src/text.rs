//! Sequences of characters: concatenation, joining by line feeds, and
//! splitting into lines.

use vstd::prelude::*;

verus! {

/// Relies on `String::push`: the character is appended at the end.
#[verifier::external_body]
pub(crate) fn push_char(s: &mut String, c: char)
    ensures
        final(s)@ == old(s)@.push(c),
{
    s.push(c)
}

/// All parts, one after another, with no separator.
pub open spec fn concat_all(parts: Seq<Seq<char>>) -> Seq<char>
    decreases parts.len(),
{
    if parts.len() == 0 {
        Seq::empty()
    } else {
        concat_all(parts.drop_last()) + parts.last()
    }
}

/// The parts with a single line feed between each two neighbours; no line feed
/// before the first part or after the last one.
pub open spec fn join_lines(parts: Seq<Seq<char>>) -> Seq<char>
    decreases parts.len(),
{
    if parts.len() == 0 {
        Seq::empty()
    } else if parts.len() == 1 {
        parts[0]
    } else {
        join_lines(parts.drop_last()) + seq!['\n'] + parts.last()
    }
}

/// The text cut at every line feed, the line feeds dropped: always at least
/// one line, and one more than the text holds line feeds.
pub open spec fn lines(s: Seq<char>) -> Seq<Seq<char>>
    decreases s.len(),
{
    if s.len() == 0 {
        seq![Seq::empty()]
    } else {
        let before = lines(s.drop_last());
        if s.last() == '\n' {
            before.push(Seq::empty())
        } else {
            before.update(before.len() - 1, before.last().push(s.last()))
        }
    }
}

/// No line feed in the text.
pub open spec fn single_line(s: Seq<char>) -> bool {
    forall|i: int| 0 <= i < s.len() ==> s[i] != '\n'
}

pub proof fn lemma_lines_nonempty(s: Seq<char>)
    ensures
        lines(s).len() >= 1,
    decreases s.len(),
{
    if s.len() > 0 {
        lemma_lines_nonempty(s.drop_last());
    }
}

/// Appending a text without line feeds extends the last line.
pub proof fn lemma_lines_append_single(s: Seq<char>, t: Seq<char>)
    requires
        single_line(t),
    ensures
        lines(s + t) == lines(s).update(
            lines(s).len() - 1,
            lines(s).last() + t,
        ),
    decreases t.len(),
{
    lemma_lines_nonempty(s);
    if t.len() == 0 {
        assert(s + t =~= s);
        assert(lines(s).last() + t =~= lines(s).last());
        assert(lines(s).update(lines(s).len() - 1, lines(s).last()) =~= lines(s));
    } else {
        let t0 = t.drop_last();
        assert(single_line(t0));
        lemma_lines_append_single(s, t0);
        assert((s + t).drop_last() =~= s + t0);
        assert((s + t).last() == t.last());
        lemma_lines_nonempty(s + t0);
        assert(lines(s).last() + t0 + seq![t.last()] =~= lines(s).last() + t);
        assert((lines(s).last() + t0).push(t.last()) =~= lines(s).last() + t);
    }
}

/// A line feed followed by a text without line feeds starts one more line.
pub proof fn lemma_lines_new_line(s: Seq<char>, t: Seq<char>)
    requires
        single_line(t),
    ensures
        lines(s + seq!['\n'] + t) == lines(s).push(t),
{
    let s1 = s + seq!['\n'];
    assert(s1.drop_last() =~= s);
    assert(s1.last() == '\n');
    lemma_lines_append_single(s1, t);
    assert(lines(s1) == lines(s).push(Seq::empty()));
    assert(Seq::<char>::empty() + t =~= t);
    assert(lines(s).push(Seq::empty()).update(lines(s).len() as int, t) =~= lines(s).push(t));
}

/// Splitting lines joined by line feeds gives the lines back, when none of
/// them holds a line feed.
pub proof fn lemma_lines_of_join(parts: Seq<Seq<char>>)
    requires
        parts.len() >= 1,
        forall|i: int| 0 <= i < parts.len() ==> single_line(#[trigger] parts[i]),
    ensures
        lines(join_lines(parts)) == parts,
    decreases parts.len(),
{
    if parts.len() == 1 {
        lemma_lines_append_single(Seq::empty(), parts[0]);
        assert(Seq::<char>::empty() + parts[0] =~= parts[0]);
        assert(lines(Seq::<char>::empty()) == seq![Seq::<char>::empty()]);
        assert(seq![Seq::<char>::empty()].update(0, Seq::<char>::empty() + parts[0]) =~= parts);
    } else {
        let init = parts.drop_last();
        assert forall|i: int| 0 <= i < init.len() implies single_line(#[trigger] init[i]) by {
            assert(init[i] == parts[i]);
        }
        lemma_lines_of_join(init);
        lemma_lines_new_line(join_lines(init), parts.last());
        assert(init.push(parts.last()) =~= parts);
    }
}

/// Texts without line feeds, one after another, hold no line feed.
pub proof fn lemma_concat_single_line(parts: Seq<Seq<char>>)
    requires
        forall|i: int| 0 <= i < parts.len() ==> single_line(#[trigger] parts[i]),
    ensures
        single_line(concat_all(parts)),
    decreases parts.len(),
{
    if parts.len() > 0 {
        let init = parts.drop_last();
        assert forall|i: int| 0 <= i < init.len() implies single_line(#[trigger] init[i]) by {
            assert(init[i] == parts[i]);
        }
        lemma_concat_single_line(init);
        let a = concat_all(init);
        let b = parts.last();
        assert forall|i: int| 0 <= i < (a + b).len() implies (a + b)[i] != '\n' by {
            if i >= a.len() {
                assert((a + b)[i] == b[i - a.len()]);
            }
        }
    }
}

/// Characters one by one, one after another, are those characters.
pub proof fn lemma_concat_singletons(parts: Seq<Seq<char>>, chars: Seq<char>)
    requires
        parts.len() == chars.len(),
        forall|i: int| 0 <= i < parts.len() ==> #[trigger] parts[i] == seq![chars[i]],
    ensures
        concat_all(parts) == chars,
    decreases parts.len(),
{
    if parts.len() > 0 {
        let init = parts.drop_last();
        assert forall|i: int| 0 <= i < init.len() implies #[trigger] init[i] == seq![
            chars.drop_last()[i],
        ] by {
            assert(init[i] == parts[i]);
        }
        lemma_concat_singletons(init, chars.drop_last());
        assert(chars.drop_last() + seq![chars.last()] =~= chars);
    }
}

/// The length of all parts one after another.
pub proof fn lemma_concat_all_len(parts: Seq<Seq<char>>, n: nat)
    requires
        forall|i: int| 0 <= i < parts.len() ==> (#[trigger] parts[i]).len() == n,
    ensures
        concat_all(parts).len() == parts.len() * n,
    decreases parts.len(),
{
    if parts.len() > 0 {
        let init = parts.drop_last();
        assert forall|i: int| 0 <= i < init.len() implies (#[trigger] init[i]).len() == n by {
            assert(init[i] == parts[i]);
        }
        lemma_concat_all_len(init, n);
        assert(parts.len() * n == init.len() * n + n) by (nonlinear_arith)
            requires
                parts.len() == init.len() + 1,
        ;
    }
}

} // verus!
