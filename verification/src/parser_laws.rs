//! What holds of every program that the parser gives.

use vstd::prelude::*;
use crate::parser::{
    line_parsed, lines_parsed, parsed, split_from, split_lines, InstrInfoView,
    ParseErrorInfoView,
};
use crate::tokenizer::{room, TokenInfoView};

verus! {

/// True where the spans of the tokens come in order: each starts before it ends, and none
/// starts before the one before it ends.
pub open spec fn in_order(tokens: Seq<TokenInfoView>) -> bool {
    &&& forall|k: int| 0 <= k < tokens.len() ==> (#[trigger] tokens[k]).start < tokens[k].end
    &&& forall|k: int| 0 < k < tokens.len() ==> tokens[k - 1].end <= (#[trigger] tokens[k]).start
}

/// True where every line is a run of tokens of the list, none empty, the runs in order and
/// apart: line `k` is the tokens from `cuts[k].0` up to, not including, `cuts[k].1`.
pub open spec fn lines_are_runs(
    tokens: Seq<TokenInfoView>,
    lines: Seq<Seq<TokenInfoView>>,
    cuts: Seq<(int, int)>,
    upto: int,
) -> bool {
    &&& cuts.len() == lines.len()
    &&& forall|k: int|
        0 <= k < lines.len() ==> {
            &&& 0 <= (#[trigger] cuts[k]).0 < cuts[k].1 <= upto
            &&& lines[k] == tokens.subrange(cuts[k].0, cuts[k].1)
        }
    &&& forall|k: int| 0 < k < lines.len() ==> cuts[k - 1].1 <= (#[trigger] cuts[k]).0
}

proof fn lemma_split_gives_runs(
    tokens: Seq<TokenInfoView>,
    i: nat,
    from: int,
    current: Seq<TokenInfoView>,
    done: Seq<Seq<TokenInfoView>>,
    cuts: Seq<(int, int)>,
) -> (all: Seq<(int, int)>)
    requires
        0 <= from <= i <= tokens.len(),
        current == tokens.subrange(from, i as int),
        lines_are_runs(tokens, done, cuts, from),
    ensures
        lines_are_runs(tokens, split_from(tokens, i, current, done), all, tokens.len() as int),
    decreases room(tokens.len(), i),
{
    let closed = if current.len() > 0 {
        done.push(current)
    } else {
        done
    };
    let marks = if current.len() > 0 {
        cuts.push((from, i as int))
    } else {
        cuts
    };
    assert(lines_are_runs(tokens, closed, marks, i as int)) by {
        assert forall|k: int| 0 <= k < closed.len() implies {
            &&& 0 <= (#[trigger] marks[k]).0 < marks[k].1 <= i
            &&& closed[k] == tokens.subrange(marks[k].0, marks[k].1)
        } by {
            if k < done.len() {
                assert(marks[k] == cuts[k]);
                assert(closed[k] == done[k]);
            }
        }
        assert forall|k: int| 0 < k < closed.len() implies marks[k - 1].1 <= (
        #[trigger] marks[k]).0 by {
            if k < done.len() {
                assert(marks[k] == cuts[k]);
            } else {
                assert(marks[k - 1] == cuts[k - 1]);
            }
        }
    }
    if i >= tokens.len() {
        marks
    } else if tokens[i as int].token is Eol {
        assert(tokens.subrange(i as int + 1, i as int + 1) =~= Seq::<TokenInfoView>::empty());
        assert(lines_are_runs(tokens, closed, marks, i as int + 1));
        lemma_split_gives_runs(tokens, i + 1, i as int + 1, Seq::empty(), closed, marks)
    } else {
        assert(tokens.subrange(from, i as int + 1) =~= current.push(tokens[i as int]));
        lemma_split_gives_runs(tokens, i + 1, from, current.push(tokens[i as int]), done, cuts)
    }
}

proof fn lemma_spans_chain(tokens: Seq<TokenInfoView>, a: int, b: int)
    requires
        in_order(tokens),
        0 <= a <= b < tokens.len(),
    ensures
        tokens[a].start < tokens[b].end,
        tokens[a].end <= tokens[b].end,
    decreases b - a,
{
    if a < b {
        lemma_spans_chain(tokens, a, b - 1);
    }
}

/// True where instruction `n` spans line `n`, for every instruction: from the start of the
/// line's first token to the end of its last.
pub open spec fn spans_of_lines(lines: Seq<Seq<TokenInfoView>>, instrs: Seq<InstrInfoView>) -> bool {
    &&& instrs.len() <= lines.len()
    &&& forall|n: int|
        0 <= n < instrs.len() ==> (#[trigger] instrs[n]).start == lines[n][0].start
            && instrs[n].end == lines[n].last().end
}

proof fn lemma_lines_give_spans(
    lines: Seq<Seq<TokenInfoView>>,
    n: nat,
    labels: Map<Seq<char>, usize>,
    instrs: Seq<InstrInfoView>,
)
    requires
        instrs.len() == n <= lines.len(),
        spans_of_lines(lines, instrs),
    ensures
        lines_parsed(lines, n, labels, instrs) matches Ok((_, all)) ==> all.len() == lines.len()
            && spans_of_lines(lines, all),
    decreases room(lines.len(), n),
{
    if n < lines.len() {
        match line_parsed(lines, n, labels) {
            Ok((next, instr)) => {
                let grown = instrs.push(instr);
                assert forall|k: int| 0 <= k < grown.len() implies (#[trigger] grown[k]).start
                    == lines[k][0].start && grown[k].end == lines[k].last().end by {
                    if k < n {
                        assert(grown[k] == instrs[k]);
                    }
                }
                lemma_lines_give_spans(lines, n + 1, next, grown);
            },
            Err(_) => {},
        }
    }
}

/// The instructions of a program span their lines: where the spans of the tokens come in
/// order, every instruction starts before it ends, at the start of a token and at the end
/// of one, and the instructions come in order and apart.
pub proof fn lemma_instructions_span_their_lines(
    tokens: Seq<TokenInfoView>,
    labels: Map<Seq<char>, usize>,
    instrs: Seq<InstrInfoView>,
)
    requires
        in_order(tokens),
        parsed(tokens) == Ok::<(Map<Seq<char>, usize>, Seq<InstrInfoView>), ParseErrorInfoView>(
            (labels, instrs),
        ),
    ensures
        instrs.len() == split_lines(tokens).len(),
        forall|n: int|
            0 <= n < instrs.len() ==> (#[trigger] instrs[n]).start < instrs[n].end && exists|
                a: int,
                b: int,
            |
                0 <= a <= b < tokens.len() && instrs[n].start == tokens[a].start && instrs[n].end
                    == tokens[b].end,
        forall|n: int| 0 < n < instrs.len() ==> instrs[n - 1].end <= (#[trigger] instrs[n]).start,
{
    let lines = split_lines(tokens);
    let none = Seq::<(int, int)>::empty();
    assert(tokens.subrange(0, 0) =~= Seq::<TokenInfoView>::empty());
    let cuts = lemma_split_gives_runs(tokens, 0, 0, Seq::empty(), Seq::empty(), none);
    lemma_lines_give_spans(lines, 0, Map::empty(), Seq::empty());
    assert forall|n: int| 0 <= n < instrs.len() implies (#[trigger] instrs[n]).start
        < instrs[n].end && exists|a: int, b: int|
        0 <= a <= b < tokens.len() && instrs[n].start == tokens[a].start && instrs[n].end
            == tokens[b].end by {
        let a = cuts[n].0;
        let b = cuts[n].1 - 1;
        assert(lines[n] == tokens.subrange(cuts[n].0, cuts[n].1));
        assert(lines[n][0] == tokens[a]);
        assert(lines[n].last() == tokens[b]);
        lemma_spans_chain(tokens, a, b);
    }
    assert forall|n: int| 0 < n < instrs.len() implies instrs[n - 1].end <= (
    #[trigger] instrs[n]).start by {
        let a = cuts[n].0;
        let before = cuts[n - 1].1 - 1;
        assert(lines[n] == tokens.subrange(cuts[n].0, cuts[n].1));
        assert(lines[n - 1] == tokens.subrange(cuts[n - 1].0, cuts[n - 1].1));
        assert(lines[n][0] == tokens[a]);
        assert(lines[n - 1].last() == tokens[before]);
        assert(tokens[before].end <= tokens[before + 1].start);
        if before + 1 < a {
            lemma_spans_chain(tokens, before + 1, a - 1);
            assert(tokens[a - 1].end <= tokens[a].start);
        }
    }
}

} // verus!
