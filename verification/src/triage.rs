//! Diagnostic triage: the compiler reports per-module problems in three
//! phases; the harness renders every one of them for the operator, but
//! only some may abort a test run.
//!
//! Canonicalization problems split by kind into benign ones (unused
//! bindings and imports, runtime errors a test provokes on purpose,
//! unsupported patterns, exposed-but-undefined names) and fatal ones;
//! type problems are always fatal; monomorphization problems are always
//! benign, since they commonly mark intentionally-triggered runtime
//! errors in test fixtures. Benign problems are surfaced as "delayed
//! errors" for the caller to inspect instead of failing the harness.
//!
//! The caller hands each problem in already rendered: the report text is
//! produced by the external reporting machinery, the routing is decided
//! here. Every problem is reported exactly once and routed to exactly
//! one of the fatal and delayed channels.
use vstd::prelude::*;

verus! {

/// The kind of a canonicalization problem, as far as triage needs it:
/// each benign kind by name, everything else collapsed to `Other`.
#[derive(Clone, Copy, PartialEq, Eq, Structural, Debug)]
pub enum CanProblemKind {
    UnusedDef,
    UnusedArgument,
    UnusedImport,
    RuntimeError,
    UnsupportedPattern,
    ExposedButNotDefined,
    Other,
}

/// Where a diagnostic is routed.
#[derive(Clone, Copy, PartialEq, Eq, Structural, Debug)]
pub enum Severity {
    Fatal,
    Delayed,
}

/// The benign canonicalization kinds: those a test may provoke on
/// purpose without failing the harness.
pub open spec fn can_kind_benign(kind: CanProblemKind) -> bool {
    match kind {
        CanProblemKind::Other => false,
        _ => true,
    }
}

/// How a canonicalization problem of this kind is routed.
pub open spec fn classify_can_problem(kind: CanProblemKind) -> Severity {
    if can_kind_benign(kind) {
        Severity::Delayed
    } else {
        Severity::Fatal
    }
}

/// Executable mirror of [`classify_can_problem`].
pub fn classify_can(kind: CanProblemKind) -> (s: Severity)
    ensures
        s == classify_can_problem(kind),
{
    match kind {
        CanProblemKind::Other => Severity::Fatal,
        _ => Severity::Delayed,
    }
}

/// One module's rendered problems, drained out of the loaded module set:
/// canonicalization problems with their kind, then type and
/// monomorphization problems, each already rendered to report text.
pub struct ModuleProblems {
    pub can_problems: Vec<(CanProblemKind, String)>,
    pub type_problems: Vec<String>,
    pub mono_problems: Vec<String>,
}

/// The views of a sequence of rendered reports.
pub open spec fn texts(reports: Seq<String>) -> Seq<Seq<char>> {
    reports.map_values(|s: String| s@)
}

/// The report texts of a sequence of canonicalization problems, in order.
pub open spec fn can_texts(problems: Seq<(CanProblemKind, String)>) -> Seq<Seq<char>> {
    problems.map_values(|p: (CanProblemKind, String)| p.1@)
}

/// The report texts of the benign canonicalization problems, in order.
pub open spec fn benign_can_texts(problems: Seq<(CanProblemKind, String)>) -> Seq<Seq<char>>
    decreases problems.len(),
{
    if problems.len() == 0 {
        Seq::empty()
    } else {
        let rest = benign_can_texts(problems.drop_last());
        if can_kind_benign(problems.last().0) {
            rest.push(problems.last().1@)
        } else {
            rest
        }
    }
}

/// The report texts of the fatal canonicalization problems, in order.
pub open spec fn fatal_can_texts(problems: Seq<(CanProblemKind, String)>) -> Seq<Seq<char>>
    decreases problems.len(),
{
    if problems.len() == 0 {
        Seq::empty()
    } else {
        let rest = fatal_can_texts(problems.drop_last());
        if can_kind_benign(problems.last().0) {
            rest
        } else {
            rest.push(problems.last().1@)
        }
    }
}

/// Everything one module reports, in rendering order: canonicalization,
/// then type, then monomorphization problems.
pub open spec fn module_report_texts(m: ModuleProblems) -> Seq<Seq<char>> {
    can_texts(m.can_problems@) + texts(m.type_problems@) + texts(m.mono_problems@)
}

/// One module's delayed-error channel: benign canonicalization problems,
/// then all monomorphization problems.
pub open spec fn module_delayed_texts(m: ModuleProblems) -> Seq<Seq<char>> {
    benign_can_texts(m.can_problems@) + texts(m.mono_problems@)
}

/// One module's fatal channel: fatal canonicalization problems, then all
/// type problems.
pub open spec fn module_fatal_texts(m: ModuleProblems) -> Seq<Seq<char>> {
    fatal_can_texts(m.can_problems@) + texts(m.type_problems@)
}

/// All modules' reports, in module order.
pub open spec fn all_report_texts(ms: Seq<ModuleProblems>) -> Seq<Seq<char>> {
    ms.map_values(|m: ModuleProblems| module_report_texts(m)).flatten()
}

/// All modules' delayed errors, in module order.
pub open spec fn all_delayed_texts(ms: Seq<ModuleProblems>) -> Seq<Seq<char>> {
    ms.map_values(|m: ModuleProblems| module_delayed_texts(m)).flatten()
}

/// All modules' fatal errors, in module order.
pub open spec fn all_fatal_texts(ms: Seq<ModuleProblems>) -> Seq<Seq<char>> {
    ms.map_values(|m: ModuleProblems| module_fatal_texts(m)).flatten()
}

/// The result of triage: every report once, and each one routed to
/// exactly one of the two channels.
pub struct TriageOutcome {
    pub reports: Vec<String>,
    pub delayed_errors: Vec<String>,
    pub fatal_errors: Vec<String>,
}

fn is_benign_can_kind(kind: CanProblemKind) -> (b: bool)
    ensures
        b == can_kind_benign(kind),
{
    match kind {
        CanProblemKind::Other => false,
        _ => true,
    }
}

/// Render-and-route one module's problems.
pub fn triage_module(m: &ModuleProblems) -> (out: TriageOutcome)
    ensures
        texts(out.reports@) == module_report_texts(*m),
        texts(out.delayed_errors@) == module_delayed_texts(*m),
        texts(out.fatal_errors@) == module_fatal_texts(*m),
{
    let mut reports: Vec<String> = Vec::new();
    let mut delayed: Vec<String> = Vec::new();
    let mut fatal: Vec<String> = Vec::new();
    let ghost cans = m.can_problems@;
    let n_can = m.can_problems.len();
    let mut i: usize = 0;
    while i < n_can
        invariant
            n_can == cans.len(),
            cans == m.can_problems@,
            i <= n_can,
            texts(reports@) == can_texts(cans.subrange(0, i as int)),
            texts(delayed@) == benign_can_texts(cans.subrange(0, i as int)),
            texts(fatal@) == fatal_can_texts(cans.subrange(0, i as int)),
        decreases n_can - i,
    {
        let kind = m.can_problems[i].0;
        let text = m.can_problems[i].1.clone();
        proof {
            let prefix = cans.subrange(0, i as int);
            let next = cans.subrange(0, i + 1);
            assert(next.drop_last() =~= prefix);
            assert(texts(reports@.push(text)) =~= texts(reports@).push(text@));
            assert(texts(delayed@.push(text)) =~= texts(delayed@).push(text@));
            assert(texts(fatal@.push(text)) =~= texts(fatal@).push(text@));
            assert(can_texts(next) =~= can_texts(prefix).push(next.last().1@));
        }
        if is_benign_can_kind(kind) {
            delayed.push(text.clone());
        } else {
            fatal.push(text.clone());
        }
        reports.push(text);
        i = i + 1;
    }
    proof {
        assert(cans.subrange(0, n_can as int) =~= cans);
    }
    let ghost types = m.type_problems@;
    let n_type = m.type_problems.len();
    let mut j: usize = 0;
    while j < n_type
        invariant
            n_type == types.len(),
            types == m.type_problems@,
            j <= n_type,
            texts(reports@) == can_texts(cans) + texts(types.subrange(0, j as int)),
            texts(delayed@) == benign_can_texts(cans),
            texts(fatal@) == fatal_can_texts(cans) + texts(types.subrange(0, j as int)),
        decreases n_type - j,
    {
        let text = m.type_problems[j].clone();
        proof {
            let prefix = types.subrange(0, j as int);
            let next = types.subrange(0, j + 1);
            assert(texts(next) =~= texts(prefix).push(next.last()@));
            assert(texts(reports@.push(text)) =~= texts(reports@).push(text@));
            assert(texts(fatal@.push(text)) =~= texts(fatal@).push(text@));
            assert(can_texts(cans) + texts(prefix).push(text@) =~= can_texts(cans) + texts(
                next,
            ));
            assert(fatal_can_texts(cans) + texts(prefix).push(text@) =~= fatal_can_texts(cans)
                + texts(next));
        }
        fatal.push(text.clone());
        reports.push(text);
        j = j + 1;
    }
    proof {
        assert(types.subrange(0, n_type as int) =~= types);
    }
    let ghost monos = m.mono_problems@;
    let n_mono = m.mono_problems.len();
    let mut k: usize = 0;
    while k < n_mono
        invariant
            n_mono == monos.len(),
            monos == m.mono_problems@,
            k <= n_mono,
            texts(reports@) == can_texts(cans) + texts(types) + texts(
                monos.subrange(0, k as int),
            ),
            texts(delayed@) == benign_can_texts(cans) + texts(monos.subrange(0, k as int)),
            texts(fatal@) == fatal_can_texts(cans) + texts(types),
        decreases n_mono - k,
    {
        let text = m.mono_problems[k].clone();
        proof {
            let prefix = monos.subrange(0, k as int);
            let next = monos.subrange(0, k + 1);
            assert(texts(next) =~= texts(prefix).push(next.last()@));
            assert(texts(reports@.push(text)) =~= texts(reports@).push(text@));
            assert(texts(delayed@.push(text)) =~= texts(delayed@).push(text@));
            assert(can_texts(cans) + texts(types) + texts(prefix).push(text@) =~= can_texts(cans)
                + texts(types) + texts(next));
            assert(benign_can_texts(cans) + texts(prefix).push(text@) =~= benign_can_texts(cans)
                + texts(next));
        }
        delayed.push(text.clone());
        reports.push(text);
        k = k + 1;
    }
    proof {
        assert(monos.subrange(0, n_mono as int) =~= monos);
        assert(texts(types.subrange(0, 0)) =~= Seq::<Seq<char>>::empty());
        assert(texts(monos.subrange(0, 0)) =~= Seq::<Seq<char>>::empty());
    }
    TriageOutcome { reports, delayed_errors: delayed, fatal_errors: fatal }
}

/// Triage a whole run: drain every module's problems, render each one
/// once, and split them across the fatal and delayed channels.
pub fn triage(modules: Vec<ModuleProblems>) -> (out: TriageOutcome)
    ensures
        texts(out.reports@) == all_report_texts(modules@),
        texts(out.delayed_errors@) == all_delayed_texts(modules@),
        texts(out.fatal_errors@) == all_fatal_texts(modules@),
{
    let ghost ms = modules@;
    let mut reports: Vec<String> = Vec::new();
    let mut delayed: Vec<String> = Vec::new();
    let mut fatal: Vec<String> = Vec::new();
    let n = modules.len();
    let mut i: usize = 0;
    proof {
        assert(ms.subrange(0, 0).map_values(|m: ModuleProblems| module_report_texts(m)) =~= Seq::<
            Seq<Seq<char>>,
        >::empty());
        assert(ms.subrange(0, 0).map_values(|m: ModuleProblems| module_delayed_texts(m)) =~= Seq::<
            Seq<Seq<char>>,
        >::empty());
        assert(ms.subrange(0, 0).map_values(|m: ModuleProblems| module_fatal_texts(m)) =~= Seq::<
            Seq<Seq<char>>,
        >::empty());
        assert(texts(reports@) =~= Seq::<Seq<char>>::empty());
    }
    while i < n
        invariant
            n == ms.len(),
            ms == modules@,
            i <= n,
            texts(reports@) == all_report_texts(ms.subrange(0, i as int)),
            texts(delayed@) == all_delayed_texts(ms.subrange(0, i as int)),
            texts(fatal@) == all_fatal_texts(ms.subrange(0, i as int)),
        decreases n - i,
    {
        let mut sub = triage_module(&modules[i]);
        proof {
            let prefix = ms.subrange(0, i as int);
            let next = ms.subrange(0, i + 1);
            let f_rep = |m: ModuleProblems| module_report_texts(m);
            let f_del = |m: ModuleProblems| module_delayed_texts(m);
            let f_fat = |m: ModuleProblems| module_fatal_texts(m);
            assert(next.map_values(f_rep) =~= prefix.map_values(f_rep).push(f_rep(ms[i as int])));
            assert(next.map_values(f_del) =~= prefix.map_values(f_del).push(f_del(ms[i as int])));
            assert(next.map_values(f_fat) =~= prefix.map_values(f_fat).push(f_fat(ms[i as int])));
            prefix.map_values(f_rep).lemma_flatten_push(f_rep(ms[i as int]));
            prefix.map_values(f_del).lemma_flatten_push(f_del(ms[i as int]));
            prefix.map_values(f_fat).lemma_flatten_push(f_fat(ms[i as int]));
            assert(texts(reports@ + sub.reports@) =~= texts(reports@) + texts(sub.reports@));
            assert(texts(delayed@ + sub.delayed_errors@) =~= texts(delayed@) + texts(
                sub.delayed_errors@,
            ));
            assert(texts(fatal@ + sub.fatal_errors@) =~= texts(fatal@) + texts(
                sub.fatal_errors@,
            ));
        }
        reports.append(&mut sub.reports);
        delayed.append(&mut sub.delayed_errors);
        fatal.append(&mut sub.fatal_errors);
        i = i + 1;
    }
    proof {
        assert(ms.subrange(0, n as int) =~= ms);
    }
    TriageOutcome { reports, delayed_errors: delayed, fatal_errors: fatal }
}

/// The harness aborts a run exactly when a fatal report exists and the
/// caller did not ask for problems to be ignored.
pub fn should_abort(out: &TriageOutcome, ignore_problems: bool) -> (b: bool)
    ensures
        b == (out.fatal_errors@.len() > 0 && !ignore_problems),
{
    out.fatal_errors.len() > 0 && !ignore_problems
}

/// The texts of `reports` in order, a line feed between neighbours: the
/// shape in which a channel is printed or handed to a caller.
pub open spec fn joined_with_newlines(reports: Seq<String>) -> Seq<char>
    decreases reports.len(),
{
    if reports.len() == 0 {
        Seq::empty()
    } else if reports.len() == 1 {
        reports[0]@
    } else {
        joined_with_newlines(reports.drop_last()) + seq!['\n'] + reports.last()@
    }
}

/// Join a channel's reports into one text, a line feed between
/// neighbours.
pub fn join_reports(reports: &Vec<String>) -> (out: String)
    ensures
        out@ == joined_with_newlines(reports@),
{
    let mut out = String::new();
    let n = reports.len();
    let mut i: usize = 0;
    proof {
        assert(reports@.subrange(0, 0) =~= Seq::<String>::empty());
    }
    while i < n
        invariant
            n == reports@.len(),
            i <= n,
            out@ == joined_with_newlines(reports@.subrange(0, i as int)),
        decreases n - i,
    {
        if i > 0 {
            out.append("\n");
        }
        out.append(reports[i].as_str());
        proof {
            reveal_strlit("\n");
            assert("\n"@ =~= seq!['\n']);
            let next = reports@.subrange(0, i + 1);
            assert(next.drop_last() =~= reports@.subrange(0, i as int));
            assert(next.last() == reports@[i as int]);
        }
        i = i + 1;
    }
    proof {
        assert(reports@.subrange(0, n as int) =~= reports@);
    }
    out
}

/// Every canonicalization problem is routed to exactly one channel: the
/// benign and fatal routings together account for each problem once.
pub proof fn lemma_can_problems_routed_once(problems: Seq<(CanProblemKind, String)>)
    ensures
        benign_can_texts(problems).len() + fatal_can_texts(problems).len() == problems.len(),
    decreases problems.len(),
{
    if problems.len() > 0 {
        lemma_can_problems_routed_once(problems.drop_last());
    }
}

/// Every diagnostic of a module is rendered exactly once and routed to
/// exactly one of the fatal and delayed channels: the two channels
/// together hold as many texts as the full report list.
pub proof fn lemma_module_routed_once(m: ModuleProblems)
    ensures
        module_delayed_texts(m).len() + module_fatal_texts(m).len() == module_report_texts(
            m,
        ).len(),
{
    lemma_can_problems_routed_once(m.can_problems@);
}

/// A module that reports only benign canonicalization problems (an
/// unused import, say) and no type problems puts nothing on the fatal
/// channel: under default settings the run is not aborted, and each of
/// those problems surfaces on the delayed channel instead.
pub proof fn lemma_benign_only_module_is_delayed(m: ModuleProblems)
    requires
        forall|i: int|
            0 <= i < m.can_problems@.len() ==> can_kind_benign(#[trigger] m.can_problems@[i].0),
        m.type_problems@.len() == 0,
    ensures
        module_fatal_texts(m) == Seq::<Seq<char>>::empty(),
        module_delayed_texts(m).len() == m.can_problems@.len() + m.mono_problems@.len(),
{
    lemma_all_benign_can_texts(m.can_problems@);
    assert(texts(m.type_problems@) =~= Seq::<Seq<char>>::empty());
    assert(fatal_can_texts(m.can_problems@) + texts(m.type_problems@) =~= Seq::<
        Seq<char>,
    >::empty());
}

/// As multisets, the two routing channels of a canonicalization problem
/// list partition its report texts: every text lands on exactly one
/// channel, never both, never neither.
proof fn lemma_can_texts_partition(problems: Seq<(CanProblemKind, String)>)
    ensures
        can_texts(problems).to_multiset() == benign_can_texts(problems).to_multiset().add(
            fatal_can_texts(problems).to_multiset(),
        ),
    decreases problems.len(),
{
    broadcast use vstd::seq_lib::group_to_multiset_ensures;
    broadcast use vstd::multiset::group_multiset_axioms;

    if problems.len() == 0 {
        assert(can_texts(problems) =~= Seq::<Seq<char>>::empty());
        assert(can_texts(problems).to_multiset() =~= benign_can_texts(
            problems,
        ).to_multiset().add(fatal_can_texts(problems).to_multiset()));
    } else {
        let prefix = problems.drop_last();
        let last = problems.last().1@;
        lemma_can_texts_partition(prefix);
        assert(can_texts(problems) =~= can_texts(prefix).push(last));
        assert(can_texts(problems).to_multiset() =~= can_texts(prefix).to_multiset().insert(
            last,
        ));
        if can_kind_benign(problems.last().0) {
            assert(benign_can_texts(problems).to_multiset() =~= benign_can_texts(
                prefix,
            ).to_multiset().insert(last));
        } else {
            assert(fatal_can_texts(problems).to_multiset() =~= fatal_can_texts(
                prefix,
            ).to_multiset().insert(last));
        }
        assert(can_texts(problems).to_multiset() =~= benign_can_texts(
            problems,
        ).to_multiset().add(fatal_can_texts(problems).to_multiset()));
    }
}

/// A module's delayed and fatal channels partition its report list: as
/// multisets, the two channels together are exactly the reports, so
/// each diagnostic is routed to exactly one channel — never both,
/// never neither.
pub proof fn lemma_module_channels_partition_reports(m: ModuleProblems)
    ensures
        module_report_texts(m).to_multiset() == module_delayed_texts(m).to_multiset().add(
            module_fatal_texts(m).to_multiset(),
        ),
{
    broadcast use vstd::multiset::group_multiset_axioms;

    lemma_can_texts_partition(m.can_problems@);
    vstd::seq_lib::lemma_multiset_commutative(
        can_texts(m.can_problems@) + texts(m.type_problems@),
        texts(m.mono_problems@),
    );
    vstd::seq_lib::lemma_multiset_commutative(
        can_texts(m.can_problems@),
        texts(m.type_problems@),
    );
    vstd::seq_lib::lemma_multiset_commutative(
        benign_can_texts(m.can_problems@),
        texts(m.mono_problems@),
    );
    vstd::seq_lib::lemma_multiset_commutative(
        fatal_can_texts(m.can_problems@),
        texts(m.type_problems@),
    );
    assert(module_report_texts(m).to_multiset() =~= module_delayed_texts(m).to_multiset().add(
        module_fatal_texts(m).to_multiset(),
    ));
}

/// Across a whole run the two channels still partition the reports: as
/// multisets, delayed and fatal together are exactly everything
/// rendered.
pub proof fn lemma_channels_partition_reports(ms: Seq<ModuleProblems>)
    ensures
        all_report_texts(ms).to_multiset() == all_delayed_texts(ms).to_multiset().add(
            all_fatal_texts(ms).to_multiset(),
        ),
    decreases ms.len(),
{
    broadcast use vstd::seq_lib::group_to_multiset_ensures;
    broadcast use vstd::multiset::group_multiset_axioms;

    let f_rep = |m: ModuleProblems| module_report_texts(m);
    let f_del = |m: ModuleProblems| module_delayed_texts(m);
    let f_fat = |m: ModuleProblems| module_fatal_texts(m);
    if ms.len() == 0 {
        assert(ms.map_values(f_rep) =~= Seq::<Seq<Seq<char>>>::empty());
        assert(ms.map_values(f_del) =~= Seq::<Seq<Seq<char>>>::empty());
        assert(ms.map_values(f_fat) =~= Seq::<Seq<Seq<char>>>::empty());
        assert(all_report_texts(ms).to_multiset() =~= all_delayed_texts(ms).to_multiset().add(
            all_fatal_texts(ms).to_multiset(),
        ));
    } else {
        let prefix = ms.drop_last();
        let last = ms.last();
        lemma_channels_partition_reports(prefix);
        lemma_module_channels_partition_reports(last);
        assert(ms.map_values(f_rep) =~= prefix.map_values(f_rep).push(f_rep(last)));
        assert(ms.map_values(f_del) =~= prefix.map_values(f_del).push(f_del(last)));
        assert(ms.map_values(f_fat) =~= prefix.map_values(f_fat).push(f_fat(last)));
        prefix.map_values(f_rep).lemma_flatten_push(f_rep(last));
        prefix.map_values(f_del).lemma_flatten_push(f_del(last));
        prefix.map_values(f_fat).lemma_flatten_push(f_fat(last));
        vstd::seq_lib::lemma_multiset_commutative(all_report_texts(prefix), f_rep(last));
        vstd::seq_lib::lemma_multiset_commutative(all_delayed_texts(prefix), f_del(last));
        vstd::seq_lib::lemma_multiset_commutative(all_fatal_texts(prefix), f_fat(last));
        assert(all_report_texts(ms) == all_report_texts(prefix) + f_rep(last));
        assert(all_delayed_texts(ms) == all_delayed_texts(prefix) + f_del(last));
        assert(all_fatal_texts(ms) == all_fatal_texts(prefix) + f_fat(last));
        let r_ms = all_report_texts(ms).to_multiset();
        let rhs = all_delayed_texts(ms).to_multiset().add(all_fatal_texts(ms).to_multiset());
        assert forall|x: Seq<char>| #[trigger] r_ms.count(x) == #[trigger] rhs.count(x) by {
            let p_rep = all_report_texts(prefix).to_multiset();
            let p_del = all_delayed_texts(prefix).to_multiset();
            let p_fat = all_fatal_texts(prefix).to_multiset();
            let l_rep = f_rep(last).to_multiset();
            let l_del = f_del(last).to_multiset();
            let l_fat = f_fat(last).to_multiset();
            assert(r_ms.count(x) == p_rep.count(x) + l_rep.count(x));
            assert(p_rep.count(x) == p_del.count(x) + p_fat.count(x));
            assert(l_rep.count(x) == l_del.count(x) + l_fat.count(x));
            assert(all_delayed_texts(ms).to_multiset().count(x) == p_del.count(x) + l_del.count(
                x,
            ));
            assert(all_fatal_texts(ms).to_multiset().count(x) == p_fat.count(x) + l_fat.count(
                x,
            ));
        }
        assert(r_ms =~= rhs);
    }
}

proof fn lemma_all_benign_can_texts(problems: Seq<(CanProblemKind, String)>)
    requires
        forall|i: int| 0 <= i < problems.len() ==> can_kind_benign(#[trigger] problems[i].0),
    ensures
        fatal_can_texts(problems) == Seq::<Seq<char>>::empty(),
        benign_can_texts(problems).len() == problems.len(),
    decreases problems.len(),
{
    if problems.len() > 0 {
        lemma_all_benign_can_texts(problems.drop_last());
    }
}

} // verus!
