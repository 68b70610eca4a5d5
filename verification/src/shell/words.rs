use vstd::prelude::*;

verus! {

/// The byte that separates the arguments of a command line.
pub const SPACE: u8 = 0x20;

/// The words of a line: its maximal runs of bytes other than spaces, in the
/// order in which they stand, each as the position of its first byte and
/// the position behind its last.
pub open spec fn words(line: Seq<u8>) -> Seq<(usize, usize)>
    decreases line.len(),
{
    if line.len() == 0 {
        Seq::empty()
    } else {
        let rest = line.drop_last();
        let before = words(rest);
        if line.last() == SPACE {
            before
        } else if rest.len() > 0 && rest.last() != SPACE {
            before.drop_last().push((before.last().0, line.len() as usize))
        } else {
            before.push((rest.len() as usize, line.len() as usize))
        }
    }
}

/// Whether a word can begin at position `at` of `line`: the position is the
/// first of the line or follows a space.
pub open spec fn word_may_begin(line: Seq<u8>, at: int) -> bool {
    at == 0 || (0 < at <= line.len() && line[at - 1] == SPACE)
}

/// Whether no byte of `line` from `from` up to `to` is a space.
pub open spec fn no_space(line: Seq<u8>, from: int, to: int) -> bool {
    forall|k: int| from <= k < to ==> #[trigger] line[k] != SPACE
}

/// A space at the end of a line adds no word.
pub proof fn lemma_space_adds_nothing(line: Seq<u8>, i: int)
    requires
        0 <= i < line.len(),
        line[i] == SPACE,
    ensures
        words(line.take(i + 1)) == words(line.take(i)),
{
    assert(line.take(i + 1).drop_last() == line.take(i));
}

/// A run without spaces that begins where a word may begin is the last word
/// of the line that ends with it, behind the words of the line before it.
pub proof fn lemma_run_is_last_word(line: Seq<u8>, start: int, end: int)
    requires
        0 <= start < end <= line.len(),
        end <= usize::MAX,
        word_may_begin(line, start),
        no_space(line, start, end),
    ensures
        words(line.take(end)) == words(line.take(start)).push((start as usize, end as usize)),
    decreases end - start,
{
    let whole = line.take(end);
    assert(whole.drop_last() == line.take(end - 1));
    assert(whole.last() == line[end - 1]);
    if end == start + 1 {
        if start > 0 {
            assert(line.take(start).last() == line[start - 1]);
        }
    } else {
        lemma_run_is_last_word(line, start, end - 1);
        assert(line.take(end - 1).last() == line[end - 2]);
        let before = words(line.take(end - 1));
        assert(before.drop_last() == words(line.take(start)));
    }
}

/// A longer line has no fewer words.
pub proof fn lemma_words_grow(line: Seq<u8>, i: int)
    requires
        line.len() <= usize::MAX,
        0 <= i <= line.len(),
    ensures
        words(line.take(i)).len() <= words(line).len(),
    decreases line.len() - i,
{
    if i < line.len() {
        lemma_words_grow(line, i + 1);
        assert(line.take(i + 1).drop_last() == line.take(i));
        lemma_words_well_formed(line.take(i + 1));
        lemma_words_well_formed(line.take(i));
    } else {
        assert(line.take(i) == line);
    }
}

/// Every word lies within the line, holds at least one byte, none of them a
/// space, and is bounded by the ends of the line or by spaces. The words
/// stand in order, with at least one space between two of them. A line
/// that does not end in a space ends with its last word.
pub proof fn lemma_words_well_formed(line: Seq<u8>)
    requires
        line.len() <= usize::MAX,
    ensures
        forall|k: int|
            0 <= k < words(line).len() ==> {
                let word = #[trigger] words(line)[k];
                &&& 0 <= word.0 < word.1 <= line.len()
                &&& no_space(line, word.0 as int, word.1 as int)
                &&& word_may_begin(line, word.0 as int)
                &&& word.1 == line.len() || line[word.1 as int] == SPACE
            },
        forall|k: int|
            0 <= k < words(line).len() - 1 ==> (#[trigger] words(line)[k]).1 < words(line)[k + 1].0,
        line.len() > 0 && line.last() != SPACE ==> words(line).len() > 0 && words(line).last().1
            == line.len(),
        line.len() > 0 && line.last() == SPACE && words(line).len() > 0 ==> words(line).last().1
            < line.len(),
    decreases line.len(),
{
    if line.len() > 0 {
        let rest = line.drop_last();
        let before = words(rest);
        lemma_words_well_formed(rest);
        let now = words(line);
        if line.last() == SPACE {
            assert forall|k: int| 0 <= k < now.len() implies {
                let word = #[trigger] now[k];
                &&& 0 <= word.0 < word.1 <= line.len()
                &&& no_space(line, word.0 as int, word.1 as int)
                &&& word_may_begin(line, word.0 as int)
                &&& word.1 == line.len() || line[word.1 as int] == SPACE
            } by {
                let word = before[k];
                assert(forall|j: int| 0 <= j < rest.len() ==> rest[j] == line[j]);
                assert(no_space(rest, word.0 as int, word.1 as int));
                assert(word_may_begin(rest, word.0 as int));
            }
        } else if rest.len() > 0 && rest.last() != SPACE {
            let last = before.last();
            assert forall|k: int| 0 <= k < now.len() implies {
                let word = #[trigger] now[k];
                &&& 0 <= word.0 < word.1 <= line.len()
                &&& no_space(line, word.0 as int, word.1 as int)
                &&& word_may_begin(line, word.0 as int)
                &&& word.1 == line.len() || line[word.1 as int] == SPACE
            } by {
                assert(forall|j: int| 0 <= j < rest.len() ==> rest[j] == line[j]);
                if k < now.len() - 1 {
                    let word = before[k];
                    assert(now[k] == word);
                    assert(no_space(rest, word.0 as int, word.1 as int));
                    assert(word_may_begin(rest, word.0 as int));
                    assert(word.1 < before[k + 1].0);
                } else {
                    assert(no_space(rest, last.0 as int, last.1 as int));
                    assert(word_may_begin(rest, last.0 as int));
                }
            }
            assert forall|k: int| 0 <= k < now.len() - 1 implies (#[trigger] now[k]).1 < now[k
                + 1].0 by {
                assert(now[k] == before[k]);
                assert(before[k].1 < before[k + 1].0);
            }
        } else {
            assert forall|k: int| 0 <= k < now.len() implies {
                let word = #[trigger] now[k];
                &&& 0 <= word.0 < word.1 <= line.len()
                &&& no_space(line, word.0 as int, word.1 as int)
                &&& word_may_begin(line, word.0 as int)
                &&& word.1 == line.len() || line[word.1 as int] == SPACE
            } by {
                assert(forall|j: int| 0 <= j < rest.len() ==> rest[j] == line[j]);
                if k < before.len() {
                    let word = before[k];
                    assert(no_space(rest, word.0 as int, word.1 as int));
                    assert(word_may_begin(rest, word.0 as int));
                }
            }
            assert forall|k: int| 0 <= k < now.len() - 1 implies (#[trigger] now[k]).1 < now[k
                + 1].0 by {
                if k < before.len() - 1 {
                    assert(before[k].1 < before[k + 1].0);
                } else {
                    assert(now[k] == before.last());
                }
            }
        }
    }
}

/// Every byte of a line that is not a space belongs to one of its words.
pub proof fn lemma_words_cover(line: Seq<u8>, at: int)
    requires
        line.len() <= usize::MAX,
        0 <= at < line.len(),
        line[at] != SPACE,
    ensures
        exists|k: int| covers(words(line), k, at),
    decreases line.len(),
{
    let rest = line.drop_last();
    let before = words(rest);
    let now = words(line);
    if at == line.len() - 1 {
        lemma_words_well_formed(line);
        let k = now.len() - 1;
        let word = now[k];
        assert(0 <= word.0 < word.1 <= line.len());
        assert(covers(now, k, at));
    } else {
        assert(rest[at] == line[at]);
        lemma_words_cover(rest, at);
        let k = choose|k: int| covers(before, k, at);
        if line.last() == SPACE {
            assert(covers(now, k, at));
        } else if rest.len() > 0 && rest.last() != SPACE {
            if k < before.len() - 1 {
                assert(now[k] == before[k]);
            } else {
                assert(now[k].0 == before[k].0);
                assert(now[k].1 == line.len());
            }
            assert(covers(now, k, at));
        } else {
            assert(now[k] == before[k]);
            assert(covers(now, k, at));
        }
    }
}

/// Whether word `k` of `found` holds position `at`.
pub open spec fn covers(found: Seq<(usize, usize)>, k: int, at: int) -> bool {
    0 <= k < found.len() && found[k].0 <= at < found[k].1
}

} // verus!
