//! The record normalizer: heuristic segmentation of one unstructured case
//! page into short note, optional extended note and statute block. The
//! page marks no boundaries, so a three-state line automaton decides:
//! the short note runs until either the "more" marker line (opening the
//! extended note) or an empty line (opening the statute block); the
//! statute block, once open, takes every line whose trimmed length stays
//! under the fixed threshold; the extended note, once open, takes the
//! rest of the document. The empty-line rule is a documented fragility:
//! a blank line inside a genuine short note ends it early.
use vstd::prelude::*;
use crate::digits::{normalize_digits, spec_normalize_digits};
use crate::model::{DekaInfo, DekaMetadata};
use crate::text::{
    chars_of, join_nl, lemma_lines_of_join, lemma_trim_excludes, lemma_trim_idempotent,
    spec_join_nl, spec_lines, spec_trim, split_lines, string_of_chars, trim_chars,
};

verus! {

/// The literal marker line that opens the extended-note section (Thai
/// for "more").
pub open spec fn spec_more_marker() -> Seq<char> {
    "\u{0e40}\u{0e1e}\u{0e34}\u{0e48}\u{0e21}\u{0e40}\u{0e15}\u{0e34}\u{0e21}"@
}

/// The fixed boundary between a statute citation line and a narrative
/// line: trimmed lines shorter than this count as statute text.
pub open spec fn law_line_limit() -> int {
    100
}

/// Which section the next line will be read into.
#[derive(Clone, Copy, Debug, PartialEq, Eq, Structural)]
pub enum Phase {
    /// Reading the short note.
    Short,
    /// The "more" marker has been seen; reading the extended note.
    Long,
    /// An empty line ended the short note; reading the statute block.
    Law,
}

/// The segmentation state: the phase and the lines collected so far for
/// each section. The extended note is present exactly when the marker
/// has been seen.
pub struct SegState {
    pub phase: Phase,
    pub short: Seq<Seq<char>>,
    pub long: Option<Seq<Seq<char>>>,
    pub law: Seq<Seq<char>>,
}

/// The state before any line is read.
pub open spec fn seg_init() -> SegState {
    SegState { phase: Phase::Short, short: Seq::empty(), long: None, law: Seq::empty() }
}

/// One line fed to the automaton.
pub open spec fn seg_step(st: SegState, line: Seq<char>) -> SegState {
    let t = spec_trim(line);
    match st.phase {
        Phase::Short => {
            if t == spec_more_marker() {
                SegState { phase: Phase::Long, long: Some(Seq::empty()), ..st }
            } else if t.len() == 0 {
                SegState { phase: Phase::Law, ..st }
            } else {
                SegState { short: st.short.push(t), ..st }
            }
        },
        Phase::Long => {
            SegState {
                long: Some(
                    match st.long {
                        Some(ls) => ls.push(t),
                        None => seq![t],
                    },
                ),
                ..st
            }
        },
        Phase::Law => {
            if t.len() < law_line_limit() && st.short.len() > 0 {
                SegState { law: st.law.push(t), ..st }
            } else {
                st
            }
        },
    }
}

/// The automaton run over a sequence of lines, from a given state.
pub open spec fn seg_run_from(st: SegState, lines: Seq<Seq<char>>) -> SegState
    decreases lines.len(),
{
    if lines.len() == 0 {
        st
    } else {
        seg_run_from(seg_step(st, lines[0]), lines.drop_first())
    }
}

/// The automaton run over a whole document.
pub open spec fn seg_run(lines: Seq<Seq<char>>) -> SegState {
    seg_run_from(seg_init(), lines)
}

/// Segment the lines of a case page body into short-note lines, optional
/// extended-note lines, and statute lines.
pub fn segment_lines(lines: &Vec<Vec<char>>) -> (r: (
    Vec<Vec<char>>,
    Option<Vec<Vec<char>>>,
    Vec<Vec<char>>,
))
    ensures
        r.0.deep_view() == seg_run(lines.deep_view()).short,
        r.1.deep_view() == seg_run(lines.deep_view()).long,
        r.2.deep_view() == seg_run(lines.deep_view()).law,
{
    let marker = chars_of("\u{0e40}\u{0e1e}\u{0e34}\u{0e48}\u{0e21}\u{0e40}\u{0e15}\u{0e34}\u{0e21}");
    let mut phase = Phase::Short;
    let mut short: Vec<Vec<char>> = Vec::new();
    let mut long: Vec<Vec<char>> = Vec::new();
    let mut long_open = false;
    let mut law: Vec<Vec<char>> = Vec::new();
    let ghost all = lines.deep_view();
    proof {
        assert(short.deep_view() =~~= Seq::<Seq<char>>::empty());
        assert(law.deep_view() =~~= Seq::<Seq<char>>::empty());
        assert(all.skip(0) =~~= all);
        assert(SegState {
            phase: phase,
            short: short.deep_view(),
            long: None,
            law: law.deep_view(),
        } == seg_init());
    }
    let mut i: usize = 0;
    while i < lines.len()
        invariant
            i <= lines@.len(),
            all == lines.deep_view(),
            marker@ == spec_more_marker(),
            seg_run(all) == seg_run_from(
                SegState {
                    phase: phase,
                    short: short.deep_view(),
                    long: if long_open {
                        Some(long.deep_view())
                    } else {
                        None
                    },
                    law: law.deep_view(),
                },
                all.skip(i as int),
            ),
            long_open == (phase is Long),
            !long_open ==> long@.len() == 0,
        decreases lines@.len() - i,
    {
        let ghost st_before = SegState {
            phase: phase,
            short: short.deep_view(),
            long: if long_open {
                Some(long.deep_view())
            } else {
                None
            },
            law: law.deep_view(),
        };
        let t = trim_chars(&lines[i]);
        proof {
            assert(all.skip(i as int)[0] == all[i as int]);
            assert(all[i as int] == lines@[i as int].deep_view());
            assert(all[i as int] =~= lines@[i as int]@);
            assert(t@ == spec_trim(all[i as int]));
            assert(all.skip(i as int).drop_first() =~~= all.skip(i + 1 as int));
        }
        match phase {
            Phase::Short => {
                if eq_chars(&t, &marker) {
                    phase = Phase::Long;
                    long_open = true;
                    proof {
                        assert(long.deep_view() =~~= Seq::<Seq<char>>::empty());
                    }
                } else if t.len() == 0 {
                    phase = Phase::Law;
                    proof {
                        assert(spec_trim(all[i as int]) =~= Seq::<char>::empty());
                    }
                } else {
                    short.push(t);
                    proof {
                        assert(short.deep_view() =~~= st_before.short.push(
                            spec_trim(all[i as int]),
                        ));
                    }
                }
            },
            Phase::Long => {
                long.push(t);
                proof {
                    assert(long.deep_view() =~~= st_before.long->Some_0.push(
                        spec_trim(all[i as int]),
                    ));
                }
            },
            Phase::Law => {
                if t.len() < 100 && short.len() > 0 {
                    law.push(t);
                    proof {
                        assert(law.deep_view() =~~= st_before.law.push(spec_trim(all[i as int])));
                    }
                }
            },
        }
        proof {
            let st_after = SegState {
                phase: phase,
                short: short.deep_view(),
                long: if long_open {
                    Some(long.deep_view())
                } else {
                    None
                },
                law: law.deep_view(),
            };
            assert(st_after == seg_step(st_before, all[i as int]));
        }
        i = i + 1;
    }
    proof {
        assert(all.skip(all.len() as int) =~~= Seq::<Seq<char>>::empty());
    }
    if long_open {
        (short, Some(long), law)
    } else {
        (short, None, law)
    }
}

/// The law-metadata phase as a function on lines: each line's trimmed
/// text is kept exactly when it stays under the statute line limit.
pub open spec fn law_select(lines: Seq<Seq<char>>) -> Seq<Seq<char>>
    decreases lines.len(),
{
    if lines.len() == 0 {
        Seq::empty()
    } else {
        let t = spec_trim(lines[0]);
        let rest = law_select(lines.drop_first());
        if t.len() < law_line_limit() {
            seq![t] + rest
        } else {
            rest
        }
    }
}

/// Once the law-metadata phase has started after a collected short note,
/// running the automaton further appends exactly the law-phase selection
/// of the remaining lines, and nothing else changes.
pub proof fn lemma_law_run(st: SegState, lines: Seq<Seq<char>>)
    requires
        st.phase is Law,
        st.short.len() > 0,
    ensures
        seg_run_from(st, lines) == (SegState { law: st.law + law_select(lines), ..st }),
    decreases lines.len(),
{
    if lines.len() == 0 {
        assert(st.law + law_select(lines) =~= st.law);
        assert(SegState { law: st.law + law_select(lines), ..st } == st);
    } else {
        let t = spec_trim(lines[0]);
        let st1 = seg_step(st, lines[0]);
        lemma_law_run(st1, lines.drop_first());
        if t.len() < law_line_limit() {
            assert(st.law + law_select(lines) =~= st.law.push(t) + law_select(
                lines.drop_first(),
            ));
        }
    }
}

proof fn lemma_law_select_pieces(lines: Seq<Seq<char>>)
    requires
        forall|i: int| 0 <= i < lines.len() ==> !(#[trigger] lines[i]).contains('\n'),
    ensures
        forall|j: int|
            0 <= j < law_select(lines).len() ==> !(#[trigger] law_select(lines)[j]).contains('\n'),
        forall|j: int|
            0 <= j < law_select(lines).len() ==> spec_trim(#[trigger] law_select(lines)[j])
                == law_select(lines)[j],
        forall|j: int|
            0 <= j < law_select(lines).len() ==> (#[trigger] law_select(lines)[j]).len()
                < law_line_limit(),
    decreases lines.len(),
{
    if lines.len() > 0 {
        assert(forall|i: int|
            0 <= i < lines.drop_first().len() ==> !(#[trigger] lines.drop_first()[i]).contains(
                '\n',
            ));
        lemma_law_select_pieces(lines.drop_first());
        let t = spec_trim(lines[0]);
        lemma_trim_excludes(lines[0], '\n');
        lemma_trim_idempotent(lines[0]);
        let rest = law_select(lines.drop_first());
        if t.len() < law_line_limit() {
            assert(law_select(lines) == seq![t] + rest);
            assert(forall|j: int| 1 <= j < law_select(lines).len() ==> law_select(lines)[j]
                == rest[j - 1]);
            assert(law_select(lines)[0] == t);
        }
    }
}

proof fn lemma_law_select_fixed(ls: Seq<Seq<char>>)
    requires
        forall|j: int| 0 <= j < ls.len() ==> spec_trim(#[trigger] ls[j]) == ls[j],
        forall|j: int| 0 <= j < ls.len() ==> (#[trigger] ls[j]).len() < law_line_limit(),
    ensures
        law_select(ls) == ls,
    decreases ls.len(),
{
    if ls.len() > 0 {
        assert(forall|j: int|
            0 <= j < ls.drop_first().len() ==> spec_trim(#[trigger] ls.drop_first()[j])
                == ls.drop_first()[j]);
        assert(forall|j: int|
            0 <= j < ls.drop_first().len() ==> (#[trigger] ls.drop_first()[j]).len()
                < law_line_limit());
        lemma_law_select_fixed(ls.drop_first());
        assert(spec_trim(ls[0]) == ls[0]);
        assert(law_select(ls) =~= ls);
    }
}

/// Law: the law-metadata phase is idempotent. Re-feeding the law field —
/// its lines recovered by splitting the joined text — through the same
/// phase logic yields the same field: its lines stay under the limit and
/// stay classified as statute text.
pub proof fn lemma_law_metadata_idempotent(lines: Seq<Seq<char>>)
    requires
        forall|i: int| 0 <= i < lines.len() ==> !(#[trigger] lines[i]).contains('\n'),
    ensures
        law_select(spec_lines(spec_join_nl(law_select(lines)))) == law_select(lines),
{
    lemma_law_select_pieces(lines);
    lemma_lines_of_join(law_select(lines));
    lemma_law_select_fixed(law_select(lines));
}

/// Whether two character vectors hold the same text.
pub fn eq_chars(a: &Vec<char>, b: &Vec<char>) -> (r: bool)
    ensures
        r == (a@ == b@),
{
    if a.len() != b.len() {
        return false;
    }
    let mut i: usize = 0;
    while i < a.len()
        invariant
            i <= a@.len(),
            a@.len() == b@.len(),
            forall|k: int| 0 <= k < i ==> a@[k] == b@[k],
        decreases a@.len() - i,
    {
        if a[i] != b[i] {
            return false;
        }
        i = i + 1;
    }
    proof {
        assert(a@ =~= b@);
    }
    true
}

/// Build one case record from a page title and its body text. The title,
/// digits normalized, becomes the case number; the body is segmented into
/// the three sections, each joined back with one newline per line. The
/// source description is left empty for the caller to fill in.
pub fn normalize(title: &str, body: &str) -> (r: DekaInfo)
    ensures
        r.deka_no@ == spec_normalize_digits(title@),
        r.short_note@ == spec_join_nl(seg_run(spec_lines(body@)).short),
        r.long_note matches Some(n) ==> seg_run(spec_lines(body@)).long matches Some(ls)
            && n@ == spec_join_nl(ls),
        r.long_note is None <==> seg_run(spec_lines(body@)).long is None,
        r.metadata.law@ == spec_join_nl(seg_run(spec_lines(body@)).law),
        r.metadata.source@ == Seq::<char>::empty(),
{
    let body_chars = chars_of(body);
    let lines = split_lines(&body_chars);
    let (short, long, law) = segment_lines(&lines);
    let short_note = {
        let j = join_nl(&short);
        string_of_chars(&j)
    };
    let long_note = match long {
        Some(ls) => {
            let j = join_nl(&ls);
            Some(string_of_chars(&j))
        },
        None => None,
    };
    let law_text = {
        let j = join_nl(&law);
        string_of_chars(&j)
    };
    DekaInfo {
        deka_no: normalize_digits(title),
        short_note,
        long_note,
        metadata: DekaMetadata { law: law_text, source: String::new() },
    }
}

} // verus!
