//! The search pipeline: it consumes the events of a filesystem walk in
//! order, reports each matching entry's path on the result side, and each
//! traversal error's message on the diagnostic side. An error event is
//! reported and passed over; it never stops the processing of the events
//! after it, and nothing is reordered or dropped.

use vstd::prelude::*;

use crate::entry::{texts, WalkEvent, WalkEventModel};
use crate::filter::{entry_matches, matches_entry, FilterModel, FilterSet};

verus! {

/// The paths a walk event contributes to the result channel: the entry's
/// path when the entry satisfies both predicates, nothing otherwise.
pub open spec fn event_matches(f: FilterModel, ev: WalkEventModel) -> Seq<Seq<char>> {
    match ev {
        WalkEventModel::Item(e) => if entry_matches(f, e.name, e.kind) {
            seq![e.path]
        } else {
            Seq::empty()
        },
        WalkEventModel::Error(_) => Seq::empty(),
    }
}

/// The messages a walk event contributes to the diagnostic channel: the
/// error's message for an error event, nothing for an entry.
pub open spec fn event_diagnostics(ev: WalkEventModel) -> Seq<Seq<char>> {
    match ev {
        WalkEventModel::Item(_) => Seq::empty(),
        WalkEventModel::Error(m) => seq![m],
    }
}

/// The result channel of a walk: the matching entries' paths, in the order
/// the walk produced them.
pub open spec fn matched_paths(f: FilterModel, events: Seq<WalkEventModel>) -> Seq<Seq<char>>
    decreases events.len(),
{
    if events.len() == 0 {
        Seq::empty()
    } else {
        event_matches(f, events[0]) + matched_paths(f, events.drop_first())
    }
}

/// The diagnostic channel of a walk: the error messages, in the order the
/// walk produced them.
pub open spec fn diagnostic_lines(events: Seq<WalkEventModel>) -> Seq<Seq<char>>
    decreases events.len(),
{
    if events.len() == 0 {
        Seq::empty()
    } else {
        event_diagnostics(events[0]) + diagnostic_lines(events.drop_first())
    }
}

/// The models of a sequence of walk events, in order.
pub open spec fn event_models(events: Seq<WalkEvent>) -> Seq<WalkEventModel> {
    events.map_values(|ev: WalkEvent| ev@)
}

/// Both channels split over a split of the walk: what comes out of a walk
/// is what comes out of its first part followed by what comes out of the
/// rest. In particular nothing a late event contributes depends on the
/// events before it.
pub proof fn lemma_channels_concat(f: FilterModel, a: Seq<WalkEventModel>, b: Seq<WalkEventModel>)
    ensures
        matched_paths(f, a + b) == matched_paths(f, a) + matched_paths(f, b),
        diagnostic_lines(a + b) == diagnostic_lines(a) + diagnostic_lines(b),
    decreases a.len(),
{
    if a.len() == 0 {
        assert(a + b =~= b);
        assert(matched_paths(f, a) + matched_paths(f, b) =~= matched_paths(f, b));
        assert(diagnostic_lines(a) + diagnostic_lines(b) =~= diagnostic_lines(b));
    } else {
        assert((a + b).drop_first() =~= a.drop_first() + b);
        lemma_channels_concat(f, a.drop_first(), b);
        assert(matched_paths(f, a + b) =~= matched_paths(f, a) + matched_paths(f, b));
        assert(diagnostic_lines(a + b) =~= diagnostic_lines(a) + diagnostic_lines(b));
    }
}

/// One event alone contributes exactly its own lines to each channel.
pub proof fn lemma_channels_single(f: FilterModel, ev: WalkEventModel)
    ensures
        matched_paths(f, seq![ev]) == event_matches(f, ev),
        diagnostic_lines(seq![ev]) == event_diagnostics(ev),
{
    let s: Seq<WalkEventModel> = seq![ev];
    assert(s.drop_first() =~= Seq::<WalkEventModel>::empty());
    assert(matched_paths(f, Seq::<WalkEventModel>::empty()) =~= Seq::<Seq<char>>::empty());
    assert(diagnostic_lines(Seq::<WalkEventModel>::empty()) =~= Seq::<Seq<char>>::empty());
    assert(matched_paths(f, s) =~= event_matches(f, ev));
    assert(diagnostic_lines(s) =~= event_diagnostics(ev));
}

/// A traversal error in the middle of a walk costs exactly its own
/// diagnostic line: every entry before and after it is still considered,
/// and the matches around it are untouched.
pub proof fn lemma_error_is_local(
    f: FilterModel,
    before: Seq<WalkEventModel>,
    message: Seq<char>,
    after: Seq<WalkEventModel>,
)
    ensures
        matched_paths(f, before + seq![WalkEventModel::Error(message)] + after) == matched_paths(
            f,
            before,
        ) + matched_paths(f, after),
        diagnostic_lines(before + seq![WalkEventModel::Error(message)] + after) == diagnostic_lines(
            before,
        ) + seq![message] + diagnostic_lines(after),
{
    let mid: Seq<WalkEventModel> = seq![WalkEventModel::Error(message)];
    lemma_channels_concat(f, before + mid, after);
    lemma_channels_concat(f, before, mid);
    lemma_channels_single(f, WalkEventModel::Error(message));
    assert(matched_paths(f, before) + Seq::<Seq<char>>::empty() =~= matched_paths(f, before));
}

/// The pipeline is a function of the walk's events and the filters alone:
/// two walks that produce the same events under the same filters are
/// reported identically, line for line and in the same order. A second
/// run over an unmodified tree is such a walk.
pub proof fn lemma_run_deterministic(
    f1: FilterModel,
    f2: FilterModel,
    e1: Seq<WalkEventModel>,
    e2: Seq<WalkEventModel>,
)
    requires
        f1 == f2,
        e1 == e2,
    ensures
        matched_paths(f1, e1) == matched_paths(f2, e2),
        diagnostic_lines(e1) == diagnostic_lines(e2),
{
}

/// What one walk reports: the matching paths and the diagnostic lines,
/// each in walk order.
pub struct SearchOutput {
    pub matches: Vec<String>,
    pub diagnostics: Vec<String>,
}

/// Processes the events of one walk under `filters`: the result channel
/// holds exactly the matching entries' paths and the diagnostic channel
/// exactly the error messages, both in the order the events came.
pub fn process_events(filters: &FilterSet, events: &Vec<WalkEvent>) -> (r: SearchOutput)
    ensures
        texts(r.matches@) == matched_paths(filters@, event_models(events@)),
        texts(r.diagnostics@) == diagnostic_lines(event_models(events@)),
{
    let ghost all: Seq<WalkEventModel> = event_models(events@);
    let mut matches: Vec<String> = Vec::new();
    let mut diagnostics: Vec<String> = Vec::new();
    let mut i: usize = 0;
    while i < events.len()
        invariant
            i <= events@.len(),
            all == event_models(events@),
            texts(matches@) == matched_paths(filters@, all.take(i as int)),
            texts(diagnostics@) == diagnostic_lines(all.take(i as int)),
        decreases events@.len() - i,
    {
        proof {
            assert(all.take(i as int + 1) =~= all.take(i as int) + seq![all[i as int]]);
            lemma_channels_concat(filters@, all.take(i as int), seq![all[i as int]]);
            lemma_channels_single(filters@, all[i as int]);
        }
        match &events[i] {
            WalkEvent::Item(e) => {
                proof {
                    assert(all[i as int] == WalkEventModel::Item(e@));
                }
                if matches_entry(filters, e) {
                    let ghost prev = matches@;
                    matches.push(e.path.clone());
                    proof {
                        assert(event_matches(filters@, all[i as int]) == seq![e@.path]);
                        assert(texts(matches@) =~= texts(prev) + seq![e@.path]);
                    }
                } else {
                    proof {
                        assert(event_matches(filters@, all[i as int]) =~= Seq::<Seq<char>>::empty());
                        assert(texts(matches@) + Seq::<Seq<char>>::empty() =~= texts(matches@));
                    }
                }
                proof {
                    assert(event_diagnostics(all[i as int]) =~= Seq::<Seq<char>>::empty());
                    assert(texts(diagnostics@) + Seq::<Seq<char>>::empty() =~= texts(diagnostics@));
                }
            },
            WalkEvent::Error(m) => {
                let ghost prev = diagnostics@;
                diagnostics.push(m.clone());
                proof {
                    assert(all[i as int] == WalkEventModel::Error(m@));
                    assert(event_matches(filters@, all[i as int]) =~= Seq::<Seq<char>>::empty());
                    assert(texts(matches@) + Seq::<Seq<char>>::empty() =~= texts(matches@));
                    assert(event_diagnostics(all[i as int]) == seq![m@]);
                    assert(texts(diagnostics@) =~= texts(prev) + seq![m@]);
                }
            },
        }
        i = i + 1;
    }
    proof {
        assert(all.take(events@.len() as int) =~= all);
    }
    SearchOutput { matches, diagnostics }
}

/// The events of the walks of all roots, one walk after the other, in
/// root order.
pub open spec fn concat_roots(rootwise: Seq<Seq<WalkEventModel>>) -> Seq<WalkEventModel>
    decreases rootwise.len(),
{
    if rootwise.len() == 0 {
        Seq::empty()
    } else {
        rootwise[0] + concat_roots(rootwise.drop_first())
    }
}

/// The models of each root's events, root by root.
pub open spec fn rootwise_models(rootwise: Seq<Vec<WalkEvent>>) -> Seq<Seq<WalkEventModel>> {
    rootwise.map_values(|evs: Vec<WalkEvent>| event_models(evs@))
}

/// Appending one walk's events extends the combined walk at its end.
pub proof fn lemma_concat_roots_push(rw: Seq<Seq<WalkEventModel>>, x: Seq<WalkEventModel>)
    ensures
        concat_roots(rw.push(x)) == concat_roots(rw) + x,
    decreases rw.len(),
{
    if rw.len() == 0 {
        assert(rw.push(x).drop_first() =~= Seq::<Seq<WalkEventModel>>::empty());
        assert(concat_roots(Seq::<Seq<WalkEventModel>>::empty()) =~= Seq::<WalkEventModel>::empty());
        assert(concat_roots(rw.push(x)) =~= concat_roots(rw) + x);
    } else {
        assert(rw.push(x).drop_first() =~= rw.drop_first().push(x));
        lemma_concat_roots_push(rw.drop_first(), x);
        assert(concat_roots(rw.push(x)) =~= concat_roots(rw) + x);
    }
}

/// Runs the whole search pipeline: the roots' walks are processed in the
/// order given, and both channels read as if the walks had been one walk,
/// root after root — matches of an earlier root never come after those of
/// a later one, and an unreadable root costs its diagnostic lines alone.
pub fn run_pipeline(filters: &FilterSet, walks: &Vec<Vec<WalkEvent>>) -> (r: SearchOutput)
    ensures
        texts(r.matches@) == matched_paths(filters@, concat_roots(rootwise_models(walks@))),
        texts(r.diagnostics@) == diagnostic_lines(concat_roots(rootwise_models(walks@))),
{
    let ghost rw: Seq<Seq<WalkEventModel>> = rootwise_models(walks@);
    let mut matches: Vec<String> = Vec::new();
    let mut diagnostics: Vec<String> = Vec::new();
    let mut k: usize = 0;
    while k < walks.len()
        invariant
            k <= walks@.len(),
            rw == rootwise_models(walks@),
            texts(matches@) == matched_paths(filters@, concat_roots(rw.take(k as int))),
            texts(diagnostics@) == diagnostic_lines(concat_roots(rw.take(k as int))),
        decreases walks@.len() - k,
    {
        let mut out = process_events(filters, &walks[k]);
        let ghost prev_matches = matches@;
        let ghost prev_diagnostics = diagnostics@;
        let ghost out_matches = out.matches@;
        let ghost out_diagnostics = out.diagnostics@;
        matches.append(&mut out.matches);
        diagnostics.append(&mut out.diagnostics);
        proof {
            let done = concat_roots(rw.take(k as int));
            let here = rw[k as int];
            assert(rw.take(k as int).push(here) =~= rw.take(k as int + 1));
            lemma_concat_roots_push(rw.take(k as int), here);
            lemma_channels_concat(filters@, done, here);
            assert(texts(matches@) =~= texts(prev_matches) + texts(out_matches));
            assert(texts(diagnostics@) =~= texts(prev_diagnostics) + texts(out_diagnostics));
        }
        k = k + 1;
    }
    proof {
        assert(rw.take(walks@.len() as int) =~= rw);
    }
    SearchOutput { matches, diagnostics }
}

} // verus!
