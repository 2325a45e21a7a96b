//! What holds of every report: whose figures stand in which line.
use crate::report::{
    head_text, phase_heads, phase_times, sample_head, sample_line, sample_lines, series_of,
    shown_root, stats_line, stats_lines, table_text, time_of, value_of, Environment, Params, Report,
    SampleRow, StatsRow,
};
use crate::text::{decimal_text, left_in, right_in};
use vstd::prelude::*;
use vstd::utf8::{
    decode_utf8_encode_utf8, decode_utf8_split, encode_utf8, encode_utf8_decode_utf8,
    encode_utf8_valid_utf8, is_char_boundary, valid_utf8_split,
};

verus! {

// Summaries.

/// The line of a summary is a name and the figures that belong to it: how many there are, the
/// least, the mean, the median, the one that a tenth exceeds, and the greatest.
pub proof fn law_a_summary_shows_its_figures(name: Seq<char>, stats: StatsRow)
    ensures
        stats_line(name, stats) == "  "@ + left_in(name, 18) + " "@ + right_in(
            decimal_text(stats.count as nat),
            5,
        ) + " "@ + right_in(stats.min@, 10) + " "@ + right_in(stats.mean@, 10) + " "@ + right_in(
            stats.p50@,
            10,
        ) + " "@ + right_in(stats.p90@, 10) + " "@ + right_in(stats.max@, 10),
{
}

/// The summaries of the phases are one line for each, in order: the name of the phase and the
/// count, the least, the mean, the median, the 90th percentile and the greatest of that phase
/// itself.
pub proof fn law_each_phase_is_summed_up_by_its_own_figures(
    phases: Seq<(String, StatsRow)>,
    n: int,
)
    requires
        0 <= n <= phases.len(),
    ensures
        stats_lines(phases, n) == Seq::new(
            n as nat,
            |i: int|
                "  "@ + left_in(phases[i].0@, 18) + " "@ + right_in(
                    decimal_text(phases[i].1.count as nat),
                    5,
                ) + " "@ + right_in(phases[i].1.min@, 10) + " "@ + right_in(
                    phases[i].1.mean@,
                    10,
                ) + " "@ + right_in(phases[i].1.p50@, 10) + " "@ + right_in(phases[i].1.p90@, 10)
                    + " "@ + right_in(phases[i].1.max@, 10) + "\n"@,
        ).flatten(),
    decreases n,
{
    let line = |i: int|
        "  "@ + left_in(phases[i].0@, 18) + " "@ + right_in(
            decimal_text(phases[i].1.count as nat),
            5,
        ) + " "@ + right_in(phases[i].1.min@, 10) + " "@ + right_in(phases[i].1.mean@, 10) + " "@
            + right_in(phases[i].1.p50@, 10) + " "@ + right_in(phases[i].1.p90@, 10) + " "@
            + right_in(phases[i].1.max@, 10) + "\n"@;
    let lines = Seq::new(n as nat, line);
    if n == 0 {
        assert(lines.flatten() =~= Seq::<char>::empty());
    } else {
        law_each_phase_is_summed_up_by_its_own_figures(phases, n - 1);
        let less = Seq::new((n - 1) as nat, line);
        assert(lines =~= less.push(line(n - 1)));
        less.lemma_flatten_push(line(n - 1));
        assert(stats_lines(phases, n) =~= stats_lines(phases, n - 1) + line(n - 1));
    }
}

proof fn lemma_summaries_around(
    phases: Seq<(String, StatsRow)>,
    others: Seq<(String, StatsRow)>,
    at: int,
    n: int,
) -> (after: Seq<char>)
    requires
        0 <= at < n <= phases.len(),
        phases.len() == others.len(),
        forall|i: int| 0 <= i < phases.len() && i != at ==> #[trigger] phases[i] == others[i],
    ensures
        stats_lines(phases, at) == stats_lines(others, at),
        stats_lines(phases, n) == stats_lines(phases, at) + (stats_line(
            phases[at].0@,
            phases[at].1,
        ) + "\n"@) + after,
        stats_lines(others, n) == stats_lines(phases, at) + (stats_line(
            others[at].0@,
            others[at].1,
        ) + "\n"@) + after,
    decreases n,
{
    let own = stats_line(phases[at].0@, phases[at].1);
    let other = stats_line(others[at].0@, others[at].1);
    let before = stats_lines(phases, at);
    if n == at + 1 {
        lemma_same_summaries(phases, others, at);
        lemma_last_line(before, own, "\n"@);
        lemma_last_line(before, other, "\n"@);
        Seq::empty()
    } else {
        let less = lemma_summaries_around(phases, others, at, n - 1);
        assert(phases[n - 1] == others[n - 1]);
        let last = stats_line(phases[n - 1].0@, phases[n - 1].1);
        lemma_one_more_line(before, own + "\n"@, less, last, "\n"@);
        lemma_one_more_line(before, other + "\n"@, less, last, "\n"@);
        less + (last + "\n"@)
    }
}

proof fn lemma_last_line(before: Seq<char>, line: Seq<char>, end: Seq<char>)
    ensures
        before + line + end == before + (line + end) + Seq::<char>::empty(),
{
    assert(before + line + end =~= before + (line + end) + Seq::<char>::empty());
}

proof fn lemma_one_more_line(
    before: Seq<char>,
    own: Seq<char>,
    less: Seq<char>,
    last: Seq<char>,
    end: Seq<char>,
)
    ensures
        (before + own + less) + last + end == before + own + (less + (last + end)),
{
    assert((before + own + less) + last + end =~= before + own + (less + (last + end)));
}

proof fn lemma_parts(
    top: Seq<char>,
    titles: Seq<char>,
    sums: Seq<char>,
    overhead: Seq<char>,
    wall: Seq<char>,
    end: Seq<char>,
)
    ensures
        top + (end + titles + end + sums + overhead + end + wall + end) == top + end + titles + end
            + sums + (overhead + end + wall + end),
{
    assert(top + (end + titles + end + sums + overhead + end + wall + end) =~= top + end + titles
        + end + sums + (overhead + end + wall + end));
}

proof fn lemma_around(
    start: Seq<char>,
    before: Seq<char>,
    own: Seq<char>,
    after: Seq<char>,
    end: Seq<char>,
)
    ensures
        start + (before + own + after) + end == (start + before) + own + (after + end),
{
    assert(start + (before + own + after) + end =~= (start + before) + own + (after + end));
}

proof fn lemma_same_summaries(
    phases: Seq<(String, StatsRow)>,
    others: Seq<(String, StatsRow)>,
    n: int,
)
    requires
        0 <= n <= phases.len(),
        n <= others.len(),
        forall|i: int| 0 <= i < n ==> #[trigger] phases[i] == others[i],
    ensures
        stats_lines(phases, n) == stats_lines(others, n),
    decreases n,
{
    if n > 0 {
        lemma_same_summaries(phases, others, n - 1);
        assert(phases[n - 1] == others[n - 1]);
    }
}

/// Where two reports differ in the figures of one phase alone, their tables differ in the line of
/// that phase alone: all before it and all behind it is the same.
#[verifier::spinoff_prover]
pub proof fn law_a_phase_changes_its_own_line_alone(report: Report, other: Report, at: int)
    requires
        report.params == other.params,
        report.environment == other.environment,
        report.samples == other.samples,
        report.samples@.len() > 0,
        report.overhead == other.overhead,
        report.wall == other.wall,
        report.phases@.len() == other.phases@.len(),
        0 <= at < report.phases@.len(),
        forall|i: int|
            0 <= i < report.phases@.len() && i != at ==> #[trigger] report.phases@[i]
                == other.phases@[i],
    ensures
        exists|before: Seq<char>, after: Seq<char>|
            table_text(report) == #[trigger] (before + ("  "@ + left_in(
                report.phases@[at].0@,
                18,
            ) + " "@ + right_in(decimal_text(report.phases@[at].1.count as nat), 5) + " "@
                + right_in(report.phases@[at].1.min@, 10) + " "@ + right_in(
                report.phases@[at].1.mean@,
                10,
            ) + " "@ + right_in(report.phases@[at].1.p50@, 10) + " "@ + right_in(
                report.phases@[at].1.p90@,
                10,
            ) + " "@ + right_in(report.phases@[at].1.max@, 10) + "\n"@) + after)
                && table_text(other) == before + ("  "@ + left_in(other.phases@[at].0@, 18)
                + " "@ + right_in(decimal_text(other.phases@[at].1.count as nat), 5) + " "@
                + right_in(other.phases@[at].1.min@, 10) + " "@ + right_in(
                other.phases@[at].1.mean@,
                10,
            ) + " "@ + right_in(other.phases@[at].1.p50@, 10) + " "@ + right_in(
                other.phases@[at].1.p90@,
                10,
            ) + " "@ + right_in(other.phases@[at].1.max@, 10) + "\n"@) + after,
{
    let n = report.phases@.len() as int;
    let rest = lemma_summaries_around(report.phases@, other.phases@, at, n);
    law_a_summary_shows_its_figures(report.phases@[at].0@, report.phases@[at].1);
    law_a_summary_shows_its_figures(other.phases@[at].0@, other.phases@[at].1);
    law_tables_have_all_parts(report);
    law_tables_have_all_parts(other);
    let heads = report.samples@[0].phases@;
    let titles = "  "@ + left_in("phase"@, 18) + " "@ + right_in("count"@, 5) + " "@ + right_in(
        "min"@,
        10,
    ) + " "@ + right_in("mean"@, 10) + " "@ + right_in("p50"@, 10) + " "@ + right_in("p90"@, 10)
        + " "@ + right_in("max"@, 10);
    let start = head_text(report.params, report.environment) + sample_head(heads) + sample_lines(
        heads,
        report.samples@,
        report.samples@.len() as int,
    ) + "\n"@ + titles + "\n"@;
    let end = stats_line("overhead"@, report.overhead) + "\n"@ + stats_line("wall"@, report.wall)
        + "\n"@;
    let before = start + stats_lines(report.phases@, at);
    let after = rest + end;
    let own = stats_line(report.phases@[at].0@, report.phases@[at].1) + "\n"@;
    let others = stats_line(other.phases@[at].0@, other.phases@[at].1) + "\n"@;
    lemma_around(start, stats_lines(report.phases@, at), own, rest, end);
    lemma_around(start, stats_lines(report.phases@, at), others, rest, end);
    assert(table_text(report) == before + own + after);
    assert(table_text(other) == before + others + after);
}

// The table.

/// A table has all its parts in order: the head, the columns and lines of the measured blocks, an
/// empty line, the titles, the summaries of the phases, and those of the overhead and of the time
/// in all. Without a measured block it is the head alone.
#[verifier::spinoff_prover]
pub proof fn law_tables_have_all_parts(report: Report)
    ensures
        report.samples@.len() == 0 ==> table_text(report) == head_text(
            report.params,
            report.environment,
        ),
        report.samples@.len() > 0 ==> table_text(report) == head_text(
            report.params,
            report.environment,
        ) + sample_head(report.samples@[0].phases@) + sample_lines(
            report.samples@[0].phases@,
            report.samples@,
            report.samples@.len() as int,
        ) + "\n"@ + ("  "@ + left_in("phase"@, 18) + " "@ + right_in("count"@, 5) + " "@
            + right_in("min"@, 10) + " "@ + right_in("mean"@, 10) + " "@ + right_in("p50"@, 10)
            + " "@ + right_in("p90"@, 10) + " "@ + right_in("max"@, 10)) + "\n"@ + stats_lines(
            report.phases@,
            report.phases@.len() as int,
        ) + (stats_line("overhead"@, report.overhead) + "\n"@ + stats_line("wall"@, report.wall)
            + "\n"@),
{
    if report.samples@.len() > 0 {
        let titles = "  "@ + left_in("phase"@, 18) + " "@ + right_in("count"@, 5) + " "@
            + right_in("min"@, 10) + " "@ + right_in("mean"@, 10) + " "@ + right_in("p50"@, 10)
            + " "@ + right_in("p90"@, 10) + " "@ + right_in("max"@, 10);
        let heads = report.samples@[0].phases@;
        let lines = sample_lines(heads, report.samples@, report.samples@.len() as int);
        let top = head_text(report.params, report.environment) + sample_head(heads) + lines;
        let sums = stats_lines(report.phases@, report.phases@.len() as int);
        lemma_parts(
            top,
            titles,
            sums,
            stats_line("overhead"@, report.overhead),
            stats_line("wall"@, report.wall),
            "\n"@,
        );
    }
}

/// The head of a table names the workload, whether signatures are real, each parameter under its
/// name, and where the benchmark ran.
#[verifier::spinoff_prover]
pub proof fn law_the_head_names_every_parameter(params: Params, env: Environment)
    ensures
        head_text(params, env) == "Block-building benchmark — "@ + params.mode@ + " workload ("@ + (
        if params.mock_crypto {
            "mock"@
        } else {
            "real"@
        }) + " crypto)\n"@ + "  validators="@ + decimal_text(params.num_validators as nat)
            + " warmup_slots="@ + decimal_text(params.warmup_slots as nat) + " iterations="@
            + decimal_text(params.iterations as nat) + " proofs_per_data="@ + decimal_text(
            params.proofs_per_data as nat,
        ) + " seed="@ + decimal_text(params.seed as nat) + "\n"@
            + "  enable_proposer_aggregation="@ + (if params.enable_proposer_aggregation {
            "true"@
        } else {
            "false"@
        }) + " max_attestations_per_block="@ + decimal_text(
            params.max_attestations_per_block as nat,
        ) + "\n"@ + "  "@ + env.client_version@ + " leansig="@ + env.leansig_rev@ + " leanvm="@
            + env.leanvm_rev@ + " os="@ + env.os@ + " arch="@ + env.arch@ + " threads="@
            + decimal_text(env.available_parallelism as nat) + "\n"@ + "\n"@,
{
}

// Measured blocks.

/// The titles of the first `n` phases are their names, in order.
pub proof fn law_each_phase_has_a_column(phases: Seq<(String, String)>, n: int)
    requires
        0 <= n <= phases.len(),
    ensures
        phase_heads(phases, n) == Seq::new(
            n as nat,
            |i: int| " "@ + right_in(phases[i].0@, 16),
        ).flatten(),
    decreases n,
{
    let title = |i: int| " "@ + right_in(phases[i].0@, 16);
    let titles = Seq::new(n as nat, title);
    if n == 0 {
        assert(titles.flatten() =~= Seq::<char>::empty());
    } else {
        law_each_phase_has_a_column(phases, n - 1);
        let less = Seq::new((n - 1) as nat, title);
        assert(titles =~= less.push(title(n - 1)));
        less.lemma_flatten_push(title(n - 1));
        assert(phase_heads(phases, n) =~= phase_heads(phases, n - 1) + title(n - 1));
    }
}

/// The times of a block stand under the names of their phases, one for each column.
pub proof fn law_times_stand_under_their_names(
    heads: Seq<(String, String)>,
    phases: Seq<(String, String)>,
    n: int,
)
    requires
        0 <= n <= heads.len(),
    ensures
        phase_times(heads, phases, n) == Seq::new(
            n as nat,
            |i: int| " "@ + right_in(time_of(phases, heads[i].0@), 16),
        ).flatten(),
    decreases n,
{
    let cell = |i: int| " "@ + right_in(time_of(phases, heads[i].0@), 16);
    let cells = Seq::new(n as nat, cell);
    if n == 0 {
        assert(cells.flatten() =~= Seq::<char>::empty());
    } else {
        law_times_stand_under_their_names(heads, phases, n - 1);
        let less = Seq::new((n - 1) as nat, cell);
        assert(cells =~= less.push(cell(n - 1)));
        less.lemma_flatten_push(cell(n - 1));
        assert(phase_times(heads, phases, n) =~= phase_times(heads, phases, n - 1) + cell(n - 1));
    }
}

/// The titles of the columns, and the line of a block: its number, its times, its overhead, its
/// time in all, and the beginning of its root.
pub proof fn law_blocks_are_shown_in_their_columns(
    heads: Seq<(String, String)>,
    sample: SampleRow,
)
    ensures
        sample_head(heads) == "  "@ + left_in("iter"@, 5) + phase_heads(heads, heads.len() as int)
            + " "@ + right_in("overhead"@, 10) + " "@ + right_in("wall"@, 10) + " "@ + right_in(
            "root"@,
            12,
        ) + "\n"@,
        sample_line(heads, sample) == "  "@ + left_in(decimal_text(sample.iteration as nat), 5)
            + phase_times(heads, sample.phases@, heads.len() as int) + " "@ + right_in(
            sample.overhead@,
            10,
        ) + " "@ + right_in(sample.wall@, 10) + " "@ + right_in(
            shown_root(sample.block_root@),
            12,
        ) + "\n"@,
{
}

/// The measured blocks have one line each, in order, and each shows its own times and root.
pub proof fn law_each_block_has_its_own_line(
    heads: Seq<(String, String)>,
    samples: Seq<SampleRow>,
    n: int,
)
    requires
        0 <= n <= samples.len(),
    ensures
        sample_lines(heads, samples, n) == Seq::new(
            n as nat,
            |i: int|
                "  "@ + left_in(decimal_text(samples[i].iteration as nat), 5) + phase_times(
                    heads,
                    samples[i].phases@,
                    heads.len() as int,
                ) + " "@ + right_in(samples[i].overhead@, 10) + " "@ + right_in(
                    samples[i].wall@,
                    10,
                ) + " "@ + right_in(shown_root(samples[i].block_root@), 12) + "\n"@,
        ).flatten(),
    decreases n,
{
    let line = |i: int|
        "  "@ + left_in(decimal_text(samples[i].iteration as nat), 5) + phase_times(
            heads,
            samples[i].phases@,
            heads.len() as int,
        ) + " "@ + right_in(samples[i].overhead@, 10) + " "@ + right_in(samples[i].wall@, 10)
            + " "@ + right_in(shown_root(samples[i].block_root@), 12) + "\n"@;
    let lines = Seq::new(n as nat, line);
    if n == 0 {
        assert(lines.flatten() =~= Seq::<char>::empty());
    } else {
        law_each_block_has_its_own_line(heads, samples, n - 1);
        let less = Seq::new((n - 1) as nat, line);
        assert(lines =~= less.push(line(n - 1)));
        less.lemma_flatten_push(line(n - 1));
        assert(sample_lines(heads, samples, n) =~= sample_lines(heads, samples, n - 1) + line(
            n - 1,
        ));
    }
}

/// What is shown of a root is how the root begins: the characters of its first ten bytes.
pub proof fn law_ten_bytes_of_a_root_are_shown(root: Seq<char>)
    requires
        is_char_boundary(encode_utf8(root), 10),
        encode_utf8(root).len() >= 10,
    ensures
        encode_utf8(shown_root(root)) == encode_utf8(root).take(10),
        shown_root(root).is_prefix_of(root),
{
    let bytes = encode_utf8(root);
    encode_utf8_valid_utf8(root);
    encode_utf8_decode_utf8(root);
    valid_utf8_split(bytes, 10);
    decode_utf8_split(bytes, 10);
    decode_utf8_encode_utf8(bytes.subrange(0, 10));
    assert(bytes.subrange(0, 10) =~= bytes.take(10));
    let rest = vstd::utf8::decode_utf8(bytes.subrange(10, bytes.len() as int));
    assert(root == shown_root(root) + rest);
    assert(root.subrange(0, shown_root(root).len() as int) =~= shown_root(root));
}

/// The time under a name is that of the first entry with the name, and the time of nothing where
/// no entry has it.
pub proof fn law_times_are_found_by_name(
    phases: Seq<(String, String)>,
    name: Seq<char>,
    at: int,
)
    ensures
        0 <= at < phases.len() && phases[at].0@ == name && (forall|i: int|
            0 <= i < at ==> (#[trigger] phases[i]).0@ != name) ==> time_of(phases, name)
            == phases[at].1@,
        (forall|i: int| 0 <= i < phases.len() ==> (#[trigger] phases[i]).0@ != name) ==> time_of(
            phases,
            name,
        ) == "0.000ms"@,
    decreases phases.len(),
{
    if phases.len() > 0 {
        let rest = phases.skip(1);
        law_times_are_found_by_name(rest, name, at - 1);
        assert forall|i: int| 0 <= i < rest.len() implies #[trigger] rest[i] == phases[i + 1] by {}
        if forall|i: int| 0 <= i < phases.len() ==> (#[trigger] phases[i]).0@ != name {
            assert(phases[0].0@ != name);
        }
        if 0 < at < phases.len() && (forall|i: int|
            0 <= i < at ==> (#[trigger] phases[i]).0@ != name) {
            assert(phases[0].0@ != name);
            assert(rest[at - 1] == phases[at]);
        }
    }
}

/// The value under a name is that of the first entry with the name, and there is none where no
/// entry has it.
pub proof fn law_values_are_found_by_name<T>(
    entries: Seq<(String, T)>,
    name: Seq<char>,
    at: int,
)
    ensures
        0 <= at < entries.len() && entries[at].0@ == name && (forall|i: int|
            0 <= i < at ==> (#[trigger] entries[i]).0@ != name) ==> value_of(entries, name)
            == Some(entries[at].1),
        (forall|i: int| 0 <= i < entries.len() ==> (#[trigger] entries[i]).0@ != name) ==> value_of(
            entries,
            name,
        ) is None,
    decreases entries.len(),
{
    if entries.len() > 0 {
        let rest = entries.skip(1);
        law_values_are_found_by_name(rest, name, at - 1);
        assert forall|i: int| 0 <= i < rest.len() implies #[trigger] rest[i] == entries[i + 1] by {}
        if forall|i: int| 0 <= i < entries.len() ==> (#[trigger] entries[i]).0@ != name {
            assert(entries[0].0@ != name);
        }
        if 0 < at < entries.len() && (forall|i: int|
            0 <= i < at ==> (#[trigger] entries[i]).0@ != name) {
            assert(entries[0].0@ != name);
            assert(rest[at - 1] == entries[at]);
        }
    }
}

/// The values of a phase over two lists of samples are those over each, in order; a sample with
/// the phase adds its value, and one without it adds none.
pub proof fn law_values_come_in_the_order_of_their_samples<T>(
    a: Seq<Vec<(String, T)>>,
    b: Seq<Vec<(String, T)>>,
    sample: Vec<(String, T)>,
    name: Seq<char>,
    value: T,
)
    ensures
        series_of(a + b, name) == series_of(a, name) + series_of(b, name),
        value_of(sample@, name) == Some(value) ==> series_of(seq![sample], name) == seq![value],
        value_of(sample@, name) is None ==> series_of(seq![sample], name).len() == 0,
    decreases b.len(),
{
    let one = seq![sample];
    assert(one.drop_last() =~= Seq::<Vec<(String, T)>>::empty());
    assert(one.last() == sample);
    assert(series_of(Seq::<Vec<(String, T)>>::empty(), name) =~= Seq::<T>::empty());
    if value_of(sample@, name) == Some(value) {
        assert(series_of(one, name) =~= seq![value]);
    }
    if b.len() == 0 {
        assert(a + b =~= a);
        assert(series_of(a, name) + series_of(b, name) =~= series_of(a, name));
    } else {
        law_values_come_in_the_order_of_their_samples(a, b.drop_last(), sample, name, value);
        assert((a + b).drop_last() =~= a + b.drop_last());
        assert((a + b).last() == b.last());
        assert(series_of(a + b, name) =~= series_of(a, name) + series_of(b, name));
    }
}

} // verus!
