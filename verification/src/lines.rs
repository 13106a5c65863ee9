//! Specification-level model of a text as a sequence of lines.
//!
//! A text is a flat sequence of characters; its lines are the segments
//! between `'\n'` characters. The terminator belongs to no line: a text
//! always has at least one line, an empty text has exactly one empty line,
//! and a text that ends in `'\n'` ends with an empty final line.

use vstd::prelude::*;

verus! {

/// Split a text into its lines at every `'\n'`; the terminators themselves
/// are not part of any line.
pub open spec fn split_lines(s: Seq<char>) -> Seq<Seq<char>>
    decreases s.len(),
{
    if s.len() == 0 {
        seq![Seq::<char>::empty()]
    } else if s[0] == '\n' {
        seq![Seq::<char>::empty()] + split_lines(s.skip(1))
    } else {
        let rest = split_lines(s.skip(1));
        seq![seq![s[0]] + rest[0]] + rest.skip(1)
    }
}

/// Rebuild the flat text from its lines, putting one `'\n'` between
/// consecutive lines.
pub open spec fn join_lines(lines: Seq<Seq<char>>) -> Seq<char>
    decreases lines.len(),
{
    if lines.len() <= 0 {
        Seq::empty()
    } else if lines.len() == 1 {
        lines[0]
    } else {
        lines[0] + seq!['\n'] + join_lines(lines.skip(1))
    }
}

/// Character offset at which line `l` starts in the flat text.
pub open spec fn line_start(lines: Seq<Seq<char>>, l: int) -> int
    decreases l,
{
    if l <= 0 {
        0
    } else {
        line_start(lines, l - 1) + lines[l - 1].len() + 1
    }
}

/// A well-formed line decomposition: at least one line, and no line
/// contains a terminator.
pub open spec fn lines_wf(lines: Seq<Seq<char>>) -> bool {
    &&& lines.len() >= 1
    &&& forall|l: int| 0 <= l < lines.len() ==> !(#[trigger] lines[l]).contains('\n')
}

/// Splitting always yields at least one line.
pub proof fn lemma_split_len_pos(s: Seq<char>)
    ensures
        split_lines(s).len() >= 1,
    decreases s.len(),
{
    if s.len() != 0 {
        lemma_split_len_pos(s.skip(1));
    }
}

/// No line produced by splitting contains a terminator.
pub proof fn lemma_split_wf(s: Seq<char>)
    ensures
        lines_wf(split_lines(s)),
    decreases s.len(),
{
    lemma_split_len_pos(s);
    if s.len() == 0 {
        assert forall|l: int| 0 <= l < split_lines(s).len() implies !(
        #[trigger] split_lines(s)[l]).contains('\n') by {
            assert(forall|i: int|
                0 <= i < split_lines(s)[l].len() ==> split_lines(s)[l][i] != '\n');
        }
    } else if s[0] == '\n' {
        lemma_split_wf(s.skip(1));
        let rest = split_lines(s.skip(1));
        assert forall|l: int| 0 <= l < split_lines(s).len() implies !(
        #[trigger] split_lines(s)[l]).contains('\n') by {
            if l == 0 {
                assert(forall|i: int|
                    0 <= i < split_lines(s)[l].len() ==> split_lines(s)[l][i] != '\n');
            } else {
                assert(split_lines(s)[l] == rest[l - 1]);
            }
        }
    } else {
        lemma_split_wf(s.skip(1));
        lemma_split_len_pos(s.skip(1));
        let rest = split_lines(s.skip(1));
        assert forall|l: int| 0 <= l < split_lines(s).len() implies !(
        #[trigger] split_lines(s)[l]).contains('\n') by {
            if l == 0 {
                let first = seq![s[0]] + rest[0];
                assert(!rest[0].contains('\n'));
                assert forall|i: int| 0 <= i < first.len() implies first[i] != '\n' by {
                    if i == 0 {
                        assert(first[0] == s[0]);
                    } else {
                        assert(first[i] == rest[0][i - 1]);
                        assert(rest[0][i - 1] != '\n');
                    }
                }
            } else {
                assert(split_lines(s)[l] == rest.skip(1)[l - 1]);
                assert(rest.skip(1)[l - 1] == rest[l]);
            }
        }
    }
}

/// Joining the split of a text gives the text back.
pub proof fn lemma_join_split(s: Seq<char>)
    ensures
        join_lines(split_lines(s)) == s,
    decreases s.len(),
{
    lemma_split_len_pos(s);
    if s.len() == 0 {
        assert(join_lines(split_lines(s)) =~= s);
    } else if s[0] == '\n' {
        lemma_join_split(s.skip(1));
        lemma_split_len_pos(s.skip(1));
        let lines = split_lines(s);
        assert(lines.skip(1) =~= split_lines(s.skip(1)));
        assert(join_lines(lines) =~= s);
    } else {
        lemma_join_split(s.skip(1));
        lemma_split_len_pos(s.skip(1));
        let rest = split_lines(s.skip(1));
        let lines = split_lines(s);
        if rest.len() == 1 {
            assert(lines =~= seq![seq![s[0]] + rest[0]]);
            assert(join_lines(lines) == seq![s[0]] + rest[0]);
            assert(join_lines(rest) == rest[0]);
            assert(join_lines(lines) =~= s);
        } else {
            assert(lines[0] == seq![s[0]] + rest[0]);
            assert(lines.len() >= 2);
            assert(lines.skip(1) =~= rest.skip(1));
            assert(join_lines(rest) == rest[0] + seq!['\n'] + join_lines(rest.skip(1)));
            assert(join_lines(rest) == s.skip(1));
            assert(join_lines(lines) == lines[0] + seq!['\n'] + join_lines(rest.skip(1)));
            assert(join_lines(lines) == (seq![s[0]] + rest[0]) + seq!['\n'] + join_lines(
                rest.skip(1),
            ));
            assert(join_lines(lines) =~= s) by {
                assert(forall|i: int| 1 <= i < s.len() ==> s[i] == s.skip(1)[i - 1]);
            }
        }
    }
}

/// Splitting the join of well-formed lines gives the lines back.
pub proof fn lemma_split_join(lines: Seq<Seq<char>>)
    requires
        lines_wf(lines),
    ensures
        split_lines(join_lines(lines)) == lines,
    decreases lines.len(), lines[0].len(),
{
    if lines.len() == 1 {
        let a = lines[0];
        if a.len() == 0 {
            assert(join_lines(lines) == a);
            assert(split_lines(a) =~~= lines);
        } else {
            assert(a[0] != '\n') by {
                assert(!a.contains('\n'));
            }
            let sub = lines.update(0, a.skip(1));
            assert(lines_wf(sub)) by {
                assert(!a.skip(1).contains('\n')) by {
                    assert(forall|i: int|
                        0 <= i < a.skip(1).len() ==> a.skip(1)[i] == a[i + 1] && a[i + 1] != '\n');
                }
            }
            lemma_split_join(sub);
            assert(join_lines(sub) == a.skip(1));
            assert(join_lines(lines) == a);
            assert(split_lines(a) == seq![seq![a[0]] + split_lines(a.skip(1))[0]] + split_lines(
                a.skip(1),
            ).skip(1));
            assert(split_lines(a.skip(1)) == sub);
            assert(seq![a[0]] + a.skip(1) =~= a);
            assert(split_lines(a) =~~= lines);
        }
    } else {
        let a = lines[0];
        let s = join_lines(lines);
        assert(s == a + seq!['\n'] + join_lines(lines.skip(1)));
        if a.len() == 0 {
            assert(s.len() >= 1 && s[0] == '\n');
            assert(lines_wf(lines.skip(1))) by {
                assert(forall|l: int|
                    0 <= l < lines.skip(1).len() ==> lines.skip(1)[l] == lines[l + 1]);
            }
            lemma_split_join(lines.skip(1));
            assert(s.skip(1) =~= join_lines(lines.skip(1)));
            assert(split_lines(s) == seq![Seq::<char>::empty()] + lines.skip(1));
            assert(split_lines(s) =~~= lines);
        } else {
            assert(a[0] != '\n') by {
                assert(!a.contains('\n'));
            }
            assert(s[0] == a[0]);
            assert(s[0] != '\n');
            let sub = lines.update(0, a.skip(1));
            assert(lines_wf(sub)) by {
                assert(!a.skip(1).contains('\n')) by {
                    assert(forall|i: int|
                        0 <= i < a.skip(1).len() ==> a.skip(1)[i] == a[i + 1] && a[i + 1] != '\n');
                }
                assert(forall|l: int| 1 <= l < sub.len() ==> sub[l] == lines[l]);
            }
            lemma_split_join(sub);
            assert(join_lines(sub) == a.skip(1) + seq!['\n'] + join_lines(sub.skip(1))) by {
                assert(sub.len() >= 2);
                assert(sub[0] == a.skip(1));
            }
            assert(sub.skip(1) =~= lines.skip(1));
            assert(s.skip(1) =~= join_lines(sub)) by {
                assert(s == a + seq!['\n'] + join_lines(lines.skip(1)));
            }
            let rest = split_lines(s.skip(1));
            assert(rest == sub);
            assert(split_lines(s) == seq![seq![s[0]] + rest[0]] + rest.skip(1));
            assert(seq![s[0]] + rest[0] =~= a) by {
                assert(rest[0] == a.skip(1));
            }
            assert(rest.skip(1) =~= lines.skip(1));
            assert(split_lines(s) =~~= lines);
        }
    }
}

/// Line starts do not decrease from one line to the next.
pub proof fn lemma_line_start_mono(lines: Seq<Seq<char>>, l1: int, l2: int)
    requires
        0 <= l1 <= l2,
    ensures
        line_start(lines, l1) <= line_start(lines, l2),
    decreases l2 - l1,
{
    if l1 < l2 {
        lemma_line_start_mono(lines, l1, l2 - 1);
    }
}

/// The start of a line past the first, seen from the tail of the text.
pub proof fn lemma_line_start_skip(lines: Seq<Seq<char>>, l: int)
    requires
        1 <= l < lines.len(),
    ensures
        line_start(lines, l) == lines[0].len() + 1 + line_start(lines.skip(1), l - 1),
    decreases l,
{
    if l == 1 {
        assert(line_start(lines, 1) == line_start(lines, 0) + lines[0].len() + 1);
        assert(line_start(lines, 0) == 0);
        assert(line_start(lines.skip(1), 0) == 0);
    } else {
        lemma_line_start_skip(lines, l - 1);
        assert(lines.skip(1)[l - 2] == lines[l - 1]);
        assert(line_start(lines, l) == line_start(lines, l - 1) + lines[l - 1].len() + 1);
        assert(line_start(lines.skip(1), l - 1) == line_start(lines.skip(1), l - 2) + lines.skip(
            1,
        )[l - 2].len() + 1);
    }
}

/// The length of the joined text, in terms of the last line's start and length.
pub proof fn lemma_join_len(lines: Seq<Seq<char>>)
    requires
        lines.len() >= 1,
    ensures
        join_lines(lines).len() == line_start(lines, lines.len() - 1) + lines[lines.len()
            - 1].len(),
    decreases lines.len(),
{
    if lines.len() == 1 {
    } else {
        lemma_join_len(lines.skip(1));
        lemma_line_start_skip(lines, lines.len() - 1);
        assert(lines.skip(1)[lines.skip(1).len() - 1] == lines[lines.len() - 1]);
    }
}

/// Every line lies inside the joined text.
pub proof fn lemma_line_in_text(lines: Seq<Seq<char>>, l: int)
    requires
        0 <= l < lines.len(),
    ensures
        line_start(lines, l) >= 0,
        line_start(lines, l) + lines[l].len() <= join_lines(lines).len(),
        l < lines.len() - 1 ==> line_start(lines, l) + lines[l].len() < join_lines(lines).len(),
    decreases lines.len(),
{
    lemma_join_len(lines);
    lemma_line_start_mono(lines, 0, l);
    if l == lines.len() - 1 {
    } else {
        assert(line_start(lines, l) + lines[l].len() + 1 == line_start(lines, l + 1));
        lemma_line_start_mono(lines, l + 1, lines.len() - 1);
    }
}

/// Inserting a character inside line `l` of the joined text is the same flat
/// text as inserting it at the corresponding flat offset.
pub proof fn lemma_join_insert(lines: Seq<Seq<char>>, l: int, c: int, ch: char)
    requires
        0 <= l < lines.len(),
        0 <= c <= lines[l].len(),
    ensures
        join_lines(lines.update(l, lines[l].insert(c, ch))) == join_lines(lines).insert(
            line_start(lines, l) + c,
            ch,
        ),
    decreases l,
{
    lemma_line_in_text(lines, l);
    let upd = lines.update(l, lines[l].insert(c, ch));
    if l == 0 {
        if lines.len() == 1 {
            assert(upd =~~= seq![lines[0].insert(c, ch)]);
            assert(join_lines(upd) =~= join_lines(lines).insert(c, ch));
        } else {
            assert(join_lines(lines) == lines[0] + seq!['\n'] + join_lines(lines.skip(1)));
            assert(upd.skip(1) =~~= lines.skip(1));
            assert(join_lines(upd) == lines[0].insert(c, ch) + seq!['\n'] + join_lines(
                lines.skip(1),
            ));
            assert(join_lines(upd) =~= join_lines(lines).insert(c, ch));
        }
    } else {
        lemma_join_insert(lines.skip(1), l - 1, c, ch);
        lemma_line_start_skip(lines, l);
        lemma_line_in_text(lines.skip(1), l - 1);
        assert(lines.skip(1)[l - 1] == lines[l]);
        assert(join_lines(lines) == lines[0] + seq!['\n'] + join_lines(lines.skip(1)));
        assert(upd.skip(1) =~~= lines.skip(1).update(l - 1, lines[l].insert(c, ch)));
        assert(upd[0] == lines[0]);
        assert(upd.len() >= 2);
        assert(join_lines(upd) == lines[0] + seq!['\n'] + join_lines(
            lines.skip(1).update(l - 1, lines[l].insert(c, ch)),
        ));
        let tail_ins = join_lines(lines.skip(1)).insert(line_start(lines.skip(1), l - 1) + c, ch);
        assert(join_lines(upd) == lines[0] + seq!['\n'] + tail_ins);
        assert(join_lines(upd) =~= join_lines(lines).insert(line_start(lines, l) + c, ch));
    }
}

/// Splitting line `l` in two at column `c` is, on the joined text, the
/// insertion of a terminator at the corresponding flat offset.
pub proof fn lemma_join_split_line(lines: Seq<Seq<char>>, l: int, c: int)
    requires
        0 <= l < lines.len(),
        0 <= c <= lines[l].len(),
    ensures
        join_lines(
            lines.subrange(0, l) + seq![lines[l].take(c), lines[l].skip(c)] + lines.subrange(
                l + 1,
                lines.len() as int,
            ),
        ) == join_lines(lines).insert(line_start(lines, l) + c, '\n'),
    decreases l,
{
    lemma_line_in_text(lines, l);
    let upd = lines.subrange(0, l) + seq![lines[l].take(c), lines[l].skip(c)] + lines.subrange(
        l + 1,
        lines.len() as int,
    );
    if l == 0 {
        assert(upd[0] == lines[0].take(c));
        assert(upd[1] == lines[0].skip(c));
        assert(upd.len() == lines.len() + 1);
        if lines.len() == 1 {
            assert(upd =~~= seq![lines[0].take(c), lines[0].skip(c)]);
            assert(upd.skip(1) =~~= seq![lines[0].skip(c)]);
            assert(join_lines(upd.skip(1)) == lines[0].skip(c));
            assert(join_lines(upd) == lines[0].take(c) + seq!['\n'] + lines[0].skip(c));
            assert(join_lines(upd) =~= join_lines(lines).insert(c, '\n'));
        } else {
            assert(upd.skip(1) =~~= seq![lines[0].skip(c)] + lines.subrange(
                1,
                lines.len() as int,
            ));
            assert(upd.skip(1).skip(1) =~~= lines.skip(1));
            assert(join_lines(upd.skip(1)) == lines[0].skip(c) + seq!['\n'] + join_lines(
                lines.skip(1),
            ));
            assert(join_lines(upd) == lines[0].take(c) + seq!['\n'] + join_lines(upd.skip(1)));
            assert(join_lines(lines) == lines[0] + seq!['\n'] + join_lines(lines.skip(1)));
            assert(join_lines(upd) =~= join_lines(lines).insert(c, '\n'));
        }
    } else {
        lemma_join_split_line(lines.skip(1), l - 1, c);
        lemma_line_start_skip(lines, l);
        lemma_line_in_text(lines.skip(1), l - 1);
        assert(lines.skip(1)[l - 1] == lines[l]);
        assert(join_lines(lines) == lines[0] + seq!['\n'] + join_lines(lines.skip(1)));
        let tail_upd = lines.skip(1).subrange(0, l - 1) + seq![
            lines[l].take(c),
            lines[l].skip(c),
        ] + lines.skip(1).subrange(l, lines.skip(1).len() as int);
        assert(upd.skip(1) =~~= tail_upd);
        assert(upd[0] == lines[0]);
        assert(upd.len() >= 2);
        assert(join_lines(upd) == lines[0] + seq!['\n'] + join_lines(tail_upd));
        assert(join_lines(upd) =~= join_lines(lines).insert(line_start(lines, l) + c, '\n'));
    }
}

/// Removing a character inside line `l` of the joined text is the removal at
/// the corresponding flat offset.
pub proof fn lemma_join_remove(lines: Seq<Seq<char>>, l: int, c: int)
    requires
        0 <= l < lines.len(),
        0 <= c < lines[l].len(),
    ensures
        join_lines(lines.update(l, lines[l].remove(c))) == join_lines(lines).remove(
            line_start(lines, l) + c,
        ),
    decreases l,
{
    lemma_line_in_text(lines, l);
    let upd = lines.update(l, lines[l].remove(c));
    if l == 0 {
        if lines.len() == 1 {
            assert(upd =~~= seq![lines[0].remove(c)]);
            assert(join_lines(upd) =~= join_lines(lines).remove(c));
        } else {
            assert(join_lines(lines) == lines[0] + seq!['\n'] + join_lines(lines.skip(1)));
            assert(upd.skip(1) =~~= lines.skip(1));
            assert(join_lines(upd) == lines[0].remove(c) + seq!['\n'] + join_lines(lines.skip(1)));
            assert(join_lines(upd) =~= join_lines(lines).remove(c));
        }
    } else {
        lemma_join_remove(lines.skip(1), l - 1, c);
        lemma_line_start_skip(lines, l);
        lemma_line_in_text(lines.skip(1), l - 1);
        assert(lines.skip(1)[l - 1] == lines[l]);
        assert(join_lines(lines) == lines[0] + seq!['\n'] + join_lines(lines.skip(1)));
        assert(upd.skip(1) =~~= lines.skip(1).update(l - 1, lines[l].remove(c)));
        assert(upd[0] == lines[0]);
        assert(upd.len() >= 2);
        assert(join_lines(upd) == lines[0] + seq!['\n'] + join_lines(
            lines.skip(1).update(l - 1, lines[l].remove(c)),
        ));
        assert(join_lines(upd) =~= join_lines(lines).remove(line_start(lines, l) + c));
    }
}

/// Joining line `l` with the following line is, on the joined text, the
/// removal of the terminator that separates them.
#[verifier::rlimit(60)]
pub proof fn lemma_join_merge_lines(lines: Seq<Seq<char>>, l: int)
    requires
        0 <= l < lines.len() - 1,
    ensures
        join_lines(
            lines.subrange(0, l) + seq![lines[l] + lines[l + 1]] + lines.subrange(
                l + 2,
                lines.len() as int,
            ),
        ) == join_lines(lines).remove(line_start(lines, l) + lines[l].len()),
    decreases l,
{
    lemma_line_in_text(lines, l);
    let upd = lines.subrange(0, l) + seq![lines[l] + lines[l + 1]] + lines.subrange(
        l + 2,
        lines.len() as int,
    );
    if l == 0 {
        assert(upd[0] == lines[0] + lines[1]);
        assert(upd.len() == lines.len() - 1);
        assert(join_lines(lines) == lines[0] + seq!['\n'] + join_lines(lines.skip(1)));
        if lines.len() == 2 {
            assert(upd =~~= seq![lines[0] + lines[1]]);
            assert(join_lines(lines.skip(1)) == lines[1]) by {
                assert(lines.skip(1) =~~= seq![lines[1]]);
            }
            assert(join_lines(upd) =~= join_lines(lines).remove(lines[0].len() as int));
        } else {
            assert(upd.skip(1) =~~= lines.skip(2));
            assert(join_lines(upd) == (lines[0] + lines[1]) + seq!['\n'] + join_lines(
                lines.skip(2),
            ));
            assert(join_lines(lines.skip(1)) == lines[1] + seq!['\n'] + join_lines(
                lines.skip(1).skip(1),
            )) by {
                assert(lines.skip(1)[0] == lines[1]);
                assert(lines.skip(1).len() >= 2);
            }
            assert(lines.skip(1).skip(1) =~~= lines.skip(2));
            assert(join_lines(upd) =~= join_lines(lines).remove(lines[0].len() as int));
        }
    } else {
        lemma_join_merge_lines(lines.skip(1), l - 1);
        lemma_line_start_skip(lines, l);
        lemma_line_in_text(lines.skip(1), l - 1);
        assert(lines.skip(1)[l - 1] == lines[l]);
        assert(lines.skip(1)[l] == lines[l + 1]);
        assert(join_lines(lines) == lines[0] + seq!['\n'] + join_lines(lines.skip(1)));
        let tail_upd = lines.skip(1).subrange(0, l - 1) + seq![lines[l] + lines[l + 1]]
            + lines.skip(1).subrange(l + 1, lines.skip(1).len() as int);
        assert(upd.skip(1) =~~= tail_upd);
        assert(upd[0] == lines[0]);
        assert(upd.len() >= 2);
        assert(join_lines(upd) == lines[0] + seq!['\n'] + join_lines(tail_upd));
        assert(join_lines(upd) =~= join_lines(lines).remove(
            line_start(lines, l) + lines[l].len(),
        ));
    }
}

} // verus!
