//! The report of a block-building benchmark, as a table. Times come as text: what is measured,
//! and how it is rounded, is not this module's concern.
use crate::text::{
    align_left, align_right, comes_before, decimal, decimal_text, left_in, right_in,
};
use vstd::prelude::*;
use vstd::string::StringExecFns;
use vstd::utf8::{decode_utf8, encode_utf8, encode_utf8_decode_utf8, is_char_boundary};

verus! {

/// Where the benchmark ran.
pub struct Environment {
    /// The version of the node.
    pub client_version: String,
    /// The revision of the signature library.
    pub leansig_rev: String,
    /// The revision of the prover.
    pub leanvm_rev: String,
    /// The operating system.
    pub os: String,
    /// The processor architecture.
    pub arch: String,
    /// How many threads run at once.
    pub available_parallelism: usize,
}

/// What the benchmark was asked to do.
pub struct Params {
    /// The kind of workload.
    pub mode: String,
    /// Whether signatures and proofs were left out.
    pub mock_crypto: bool,
    /// Number of validators.
    pub num_validators: u64,
    /// Slots before the first measured block.
    pub warmup_slots: u64,
    /// Proofs for each attestation data.
    pub proofs_per_data: u64,
    /// The seed of everything random.
    pub seed: u64,
    /// How many blocks are measured.
    pub iterations: u64,
    /// Whether the proposer aggregates.
    pub enable_proposer_aggregation: bool,
    /// Most attestations that a block takes.
    pub max_attestations_per_block: usize,
}

/// One measured block.
pub struct SampleRow {
    /// Which block it is.
    pub iteration: u64,
    /// The time of each phase, in the order of the phases' names.
    pub phases: Vec<(String, String)>,
    /// The time outside all phases.
    pub overhead: String,
    /// The time in all.
    pub wall: String,
    /// The block's root.
    pub block_root: String,
}

/// The times of all measured blocks, summed up.
pub struct StatsRow {
    /// How many times there are.
    pub count: usize,
    /// The least.
    pub min: String,
    /// The mean.
    pub mean: String,
    /// The median.
    pub p50: String,
    /// The one that a tenth exceeds.
    pub p90: String,
    /// The greatest.
    pub max: String,
}

/// A report.
pub struct Report {
    /// Where the benchmark ran.
    pub environment: Environment,
    /// What it was asked to do.
    pub params: Params,
    /// The measured blocks.
    pub samples: Vec<SampleRow>,
    /// The times of each phase, summed up, in the order of the phases' names.
    pub phases: Vec<(String, StatsRow)>,
    /// The times outside all phases, summed up.
    pub overhead: StatsRow,
    /// The times in all, summed up.
    pub wall: StatsRow,
}

/// Whether the entries of a list stand in the order of their names, each name once.
pub open spec fn ordered_by_name<T>(entries: Seq<(String, T)>) -> bool {
    forall|i: int, j: int|
        0 <= i < j < entries.len() ==> comes_before(
            (#[trigger] entries[i]).0@,
            (#[trigger] entries[j]).0@,
        )
}

/// How many bytes of a block's root are shown.
pub const ROOT_BYTES: usize = 10;

/// The characters that the first bytes of a root encode.
pub open spec fn shown_root(root: Seq<char>) -> Seq<char> {
    decode_utf8(encode_utf8(root).subrange(0, ROOT_BYTES as int))
}

impl SampleRow {
    /// Whether the phases stand in order, each once, and the root can be cut to what is shown.
    pub open spec fn wf(&self) -> bool {
        &&& ordered_by_name(self.phases@)
        &&& is_char_boundary(encode_utf8(self.block_root@), ROOT_BYTES as int)
    }
}

impl Report {
    /// Whether all phases stand in order, each once, and all roots can be cut to what is shown.
    pub open spec fn wf(&self) -> bool {
        &&& ordered_by_name(self.phases@)
        &&& forall|i: int| 0 <= i < self.samples@.len() ==> (#[trigger] self.samples@[i]).wf()
    }
}

/// The text of a truth value.
pub open spec fn bool_text(b: bool) -> Seq<char> {
    if b {
        "true"@
    } else {
        "false"@
    }
}

fn bool_str(b: bool) -> (res: &'static str)
    ensures
        res@ == bool_text(b),
{
    if b {
        "true"
    } else {
        "false"
    }
}

/// The lines of the head.
pub open spec fn head_text(params: Params, env: Environment) -> Seq<char> {
    "Block-building benchmark — "@ + params.mode@ + " workload ("@ + (if params.mock_crypto {
        "mock"@
    } else {
        "real"@
    }) + " crypto)\n"@ + "  validators="@ + decimal_text(params.num_validators as nat)
        + " warmup_slots="@ + decimal_text(params.warmup_slots as nat) + " iterations="@
        + decimal_text(params.iterations as nat) + " proofs_per_data="@ + decimal_text(
        params.proofs_per_data as nat,
    ) + " seed="@ + decimal_text(params.seed as nat) + "\n"@ + "  enable_proposer_aggregation="@
        + bool_text(params.enable_proposer_aggregation) + " max_attestations_per_block="@
        + decimal_text(params.max_attestations_per_block as nat) + "\n"@ + "  "@
        + env.client_version@ + " leansig="@ + env.leansig_rev@ + " leanvm="@ + env.leanvm_rev@
        + " os="@ + env.os@ + " arch="@ + env.arch@ + " threads="@ + decimal_text(
        env.available_parallelism as nat,
    ) + "\n"@ + "\n"@
}

/// The first `n` phase names, each in its column.
pub open spec fn phase_heads(phases: Seq<(String, String)>, n: int) -> Seq<char>
    decreases n,
{
    if n <= 0 {
        Seq::empty()
    } else {
        phase_heads(phases, n - 1) + " "@ + right_in(phases[n - 1].0@, 16)
    }
}

/// The heads of the columns of measured blocks.
pub open spec fn sample_head(phases: Seq<(String, String)>) -> Seq<char> {
    "  "@ + left_in("iter"@, 5) + phase_heads(phases, phases.len() as int) + " "@ + right_in(
        "overhead"@,
        10,
    ) + " "@ + right_in("wall"@, 10) + " "@ + right_in("root"@, 12) + "\n"@
}

/// The time under a name: that of the first entry with the name, or that of nothing.
pub open spec fn time_of(phases: Seq<(String, String)>, name: Seq<char>) -> Seq<char>
    decreases phases.len(),
{
    if phases.len() == 0 {
        "0.000ms"@
    } else if phases[0].0@ == name {
        phases[0].1@
    } else {
        time_of(phases.skip(1), name)
    }
}

/// The times of the first `n` phases of `heads`, each in its column.
pub open spec fn phase_times(
    heads: Seq<(String, String)>,
    phases: Seq<(String, String)>,
    n: int,
) -> Seq<char>
    decreases n,
{
    if n <= 0 {
        Seq::empty()
    } else {
        phase_times(heads, phases, n - 1) + " "@ + right_in(time_of(phases, heads[n - 1].0@), 16)
    }
}

/// The line of a measured block.
pub open spec fn sample_line(heads: Seq<(String, String)>, sample: SampleRow) -> Seq<char> {
    "  "@ + left_in(decimal_text(sample.iteration as nat), 5) + phase_times(
        heads,
        sample.phases@,
        heads.len() as int,
    ) + " "@ + right_in(sample.overhead@, 10) + " "@ + right_in(sample.wall@, 10) + " "@
        + right_in(shown_root(sample.block_root@), 12) + "\n"@
}

/// The lines of the first `n` measured blocks.
pub open spec fn sample_lines(
    heads: Seq<(String, String)>,
    samples: Seq<SampleRow>,
    n: int,
) -> Seq<char>
    decreases n,
{
    if n <= 0 {
        Seq::empty()
    } else {
        sample_lines(heads, samples, n - 1) + sample_line(heads, samples[n - 1])
    }
}

/// A line of seven columns.
pub open spec fn seven_columns(
    name: Seq<char>,
    count: Seq<char>,
    min: Seq<char>,
    mean: Seq<char>,
    p50: Seq<char>,
    p90: Seq<char>,
    max: Seq<char>,
) -> Seq<char> {
    "  "@ + left_in(name, 18) + " "@ + right_in(count, 5) + " "@ + right_in(min, 10) + " "@
        + right_in(mean, 10) + " "@ + right_in(p50, 10) + " "@ + right_in(p90, 10) + " "@
        + right_in(max, 10)
}

/// The line of a summary.
pub open spec fn stats_line(name: Seq<char>, stats: StatsRow) -> Seq<char> {
    seven_columns(
        name,
        decimal_text(stats.count as nat),
        stats.min@,
        stats.mean@,
        stats.p50@,
        stats.p90@,
        stats.max@,
    )
}

/// The lines of the first `n` phases, summed up.
pub open spec fn stats_lines(phases: Seq<(String, StatsRow)>, n: int) -> Seq<char>
    decreases n,
{
    if n <= 0 {
        Seq::empty()
    } else {
        stats_lines(phases, n - 1) + stats_line(phases[n - 1].0@, phases[n - 1].1) + "\n"@
    }
}

/// The lines of all summaries.
pub open spec fn summary_text(report: Report) -> Seq<char> {
    "\n"@ + seven_columns(
        "phase"@,
        "count"@,
        "min"@,
        "mean"@,
        "p50"@,
        "p90"@,
        "max"@,
    ) + "\n"@ + stats_lines(report.phases@, report.phases@.len() as int) + stats_line(
        "overhead"@,
        report.overhead,
    ) + "\n"@ + stats_line("wall"@, report.wall) + "\n"@
}

/// The whole table: the head, and, where a block was measured, its columns, taken from the first
/// block, and the summaries.
pub open spec fn table_text(report: Report) -> Seq<char> {
    let head = head_text(report.params, report.environment);
    if report.samples@.len() == 0 {
        head
    } else {
        let heads = report.samples@[0].phases@;
        head + sample_head(heads) + sample_lines(
            heads,
            report.samples@,
            report.samples@.len() as int,
        ) + summary_text(report)
    }
}

fn head(params: &Params, env: &Environment) -> (res: String)
    ensures
        res@ == head_text(*params, *env),
{
    let crypto = if params.mock_crypto {
        "mock"
    } else {
        "real"
    };
    let mut out = "Block-building benchmark — ".to_string();
    out.append(params.mode.as_str());
    out.append(" workload (");
    out.append(crypto);
    out.append(" crypto)\n");
    out.append("  validators=");
    out.append(decimal(params.num_validators).as_str());
    out.append(" warmup_slots=");
    out.append(decimal(params.warmup_slots).as_str());
    out.append(" iterations=");
    out.append(decimal(params.iterations).as_str());
    out.append(" proofs_per_data=");
    out.append(decimal(params.proofs_per_data).as_str());
    out.append(" seed=");
    out.append(decimal(params.seed).as_str());
    out.append("\n");
    out.append("  enable_proposer_aggregation=");
    out.append(bool_str(params.enable_proposer_aggregation));
    out.append(" max_attestations_per_block=");
    out.append(decimal(params.max_attestations_per_block as u64).as_str());
    out.append("\n");
    out.append("  ");
    out.append(env.client_version.as_str());
    out.append(" leansig=");
    out.append(env.leansig_rev.as_str());
    out.append(" leanvm=");
    out.append(env.leanvm_rev.as_str());
    out.append(" os=");
    out.append(env.os.as_str());
    out.append(" arch=");
    out.append(env.arch.as_str());
    out.append(" threads=");
    out.append(decimal(env.available_parallelism as u64).as_str());
    out.append("\n");
    out.append("\n");
    out
}

fn heads_line(phases: &Vec<(String, String)>) -> (res: String)
    ensures
        res@ == sample_head(phases@),
{
    let mut out = "  ".to_string();
    out.append(align_left("iter", 5).as_str());
    let ghost start = out@;
    let mut i: usize = 0;
    assert(start + phase_heads(phases@, 0) =~= start);
    while i < phases.len()
        invariant
            i <= phases@.len(),
            out@ == start + phase_heads(phases@, i as int),
        decreases phases@.len() - i,
    {
        out.append(" ");
        out.append(align_right(phases[i].0.as_str(), 16).as_str());
        i = i + 1;
        assert(out@ =~= start + phase_heads(phases@, i as int));
    }
    out.append(" ");
    out.append(align_right("overhead", 10).as_str());
    out.append(" ");
    out.append(align_right("wall", 10).as_str());
    out.append(" ");
    out.append(align_right("root", 12).as_str());
    out.append("\n");
    out
}

/// The time under a name; that of nothing if there is none.
pub fn phase_time(phases: &Vec<(String, String)>, name: &String) -> (res: String)
    ensures
        res@ == time_of(phases@, name@),
{
    let mut i: usize = 0;
    assert(phases@.skip(0) =~= phases@);
    while i < phases.len()
        invariant
            i <= phases@.len(),
            time_of(phases@, name@) == time_of(phases@.skip(i as int), name@),
        decreases phases@.len() - i,
    {
        proof {
            assert(phases@.skip(i as int)[0] == phases@[i as int]);
            assert(phases@.skip(i as int).skip(1) =~= phases@.skip(i + 1));
        }
        if phases[i].0 == *name {
            return phases[i].1.clone();
        }
        i = i + 1;
    }
    "0.000ms".to_string()
}

fn row(heads: &Vec<(String, String)>, sample: &SampleRow) -> (res: String)
    requires
        sample.wf(),
    ensures
        res@ == sample_line(heads@, *sample),
{
    let mut out = "  ".to_string();
    out.append(align_left(decimal(sample.iteration).as_str(), 5).as_str());
    let ghost start = out@;
    let mut i: usize = 0;
    assert(start + phase_times(heads@, sample.phases@, 0) =~= start);
    while i < heads.len()
        invariant
            i <= heads@.len(),
            out@ == start + phase_times(heads@, sample.phases@, i as int),
        decreases heads@.len() - i,
    {
        out.append(" ");
        let time = phase_time(&sample.phases, &heads[i].0);
        out.append(align_right(time.as_str(), 16).as_str());
        i = i + 1;
        assert(out@ =~= start + phase_times(heads@, sample.phases@, i as int));
    }
    out.append(" ");
    out.append(align_right(sample.overhead.as_str(), 10).as_str());
    out.append(" ");
    out.append(align_right(sample.wall.as_str(), 10).as_str());
    out.append(" ");
    let root = sample.block_root.as_str().split_at(ROOT_BYTES).0;
    proof {
        encode_utf8_decode_utf8(root@);
        assert(root@ == shown_root(sample.block_root@));
    }
    out.append(align_right(root, 12).as_str());
    out.append("\n");
    out
}

fn columns(name: &str, count: &str, min: &str, mean: &str, p50: &str, p90: &str, max: &str) -> (res:
    String)
    ensures
        res@ == seven_columns(name@, count@, min@, mean@, p50@, p90@, max@),
{
    let mut out = "  ".to_string();
    out.append(align_left(name, 18).as_str());
    out.append(" ");
    out.append(align_right(count, 5).as_str());
    out.append(" ");
    out.append(align_right(min, 10).as_str());
    out.append(" ");
    out.append(align_right(mean, 10).as_str());
    out.append(" ");
    out.append(align_right(p50, 10).as_str());
    out.append(" ");
    out.append(align_right(p90, 10).as_str());
    out.append(" ");
    out.append(align_right(max, 10).as_str());
    out
}

/// The line of a summary.
pub fn stats_row(name: &str, stats: &StatsRow) -> (res: String)
    ensures
        res@ == stats_line(name@, *stats),
{
    columns(
        name,
        decimal(stats.count as u64).as_str(),
        stats.min.as_str(),
        stats.mean.as_str(),
        stats.p50.as_str(),
        stats.p90.as_str(),
        stats.max.as_str(),
    )
}

fn summary(report: &Report) -> (res: String)
    ensures
        res@ == summary_text(*report),
{
    let mut out = "\n".to_string();
    out.append(columns("phase", "count", "min", "mean", "p50", "p90", "max").as_str());
    out.append("\n");
    let ghost start = out@;
    let mut i: usize = 0;
    assert(start + stats_lines(report.phases@, 0) =~= start);
    while i < report.phases.len()
        invariant
            i <= report.phases@.len(),
            out@ == start + stats_lines(report.phases@, i as int),
        decreases report.phases@.len() - i,
    {
        out.append(stats_row(report.phases[i].0.as_str(), &report.phases[i].1).as_str());
        out.append("\n");
        i = i + 1;
        assert(out@ =~= start + stats_lines(report.phases@, i as int));
    }
    out.append(stats_row("overhead", &report.overhead).as_str());
    out.append("\n");
    out.append(stats_row("wall", &report.wall).as_str());
    out.append("\n");
    out
}

/// The lines of the measured blocks.
fn rows(heads: &Vec<(String, String)>, samples: &Vec<SampleRow>) -> (res: String)
    requires
        forall|i: int| 0 <= i < samples@.len() ==> (#[trigger] samples@[i]).wf(),
    ensures
        res@ == sample_lines(heads@, samples@, samples@.len() as int),
{
    let mut out = String::new();
    let mut i: usize = 0;
    assert(out@ =~= sample_lines(heads@, samples@, 0));
    while i < samples.len()
        invariant
            i <= samples@.len(),
            forall|j: int| 0 <= j < samples@.len() ==> (#[trigger] samples@[j]).wf(),
            out@ == sample_lines(heads@, samples@, i as int),
        decreases samples@.len() - i,
    {
        out.append(row(heads, &samples[i]).as_str());
        i = i + 1;
    }
    out
}

impl Report {
    /// The report as a table.
    #[verifier::spinoff_prover]
    pub fn human_table(&self) -> (res: String)
        requires
            self.wf(),
        ensures
            res@ == table_text(*self),
    {
        let mut out = head(&self.params, &self.environment);
        if self.samples.len() == 0 {
            return out;
        }
        let heads = &self.samples[0].phases;
        out.append(heads_line(heads).as_str());
        out.append(rows(heads, &self.samples).as_str());
        out.append(summary(self).as_str());
        out
    }
}

/// The values under a name, one from each sample that has one, in order.
pub open spec fn series_of<T>(samples: Seq<Vec<(String, T)>>, name: Seq<char>) -> Seq<T>
    decreases samples.len(),
{
    if samples.len() == 0 {
        Seq::empty()
    } else {
        let before = series_of(samples.drop_last(), name);
        match value_of(samples.last()@, name) {
            Some(value) => before.push(value),
            None => before,
        }
    }
}

/// The value of the first entry with a name.
pub open spec fn value_of<T>(entries: Seq<(String, T)>, name: Seq<char>) -> Option<T>
    decreases entries.len(),
{
    if entries.len() == 0 {
        None
    } else if entries[0].0@ == name {
        Some(entries[0].1)
    } else {
        value_of(entries.skip(1), name)
    }
}

/// The value of the first entry with a name.
fn find_value<T: Copy>(entries: &Vec<(String, T)>, name: &String) -> (res: Option<T>)
    ensures
        res == value_of(entries@, name@),
{
    let mut i: usize = 0;
    assert(entries@.skip(0) =~= entries@);
    while i < entries.len()
        invariant
            i <= entries@.len(),
            value_of(entries@, name@) == value_of(entries@.skip(i as int), name@),
        decreases entries@.len() - i,
    {
        proof {
            assert(entries@.skip(i as int)[0] == entries@[i as int]);
            assert(entries@.skip(i as int).skip(1) =~= entries@.skip(i + 1));
        }
        if entries[i].0 == *name {
            return Some(entries[i].1);
        }
        i = i + 1;
    }
    None
}

/// The values of one phase, one from each sample that has the phase, in order. None is left out
/// for being far from the others.
pub fn phase_series<T: Copy>(samples: &Vec<Vec<(String, T)>>, name: &String) -> (res: Vec<T>)
    ensures
        res@ == series_of(samples@, name@),
{
    let mut values: Vec<T> = Vec::new();
    let mut i: usize = 0;
    while i < samples.len()
        invariant
            i <= samples@.len(),
            values@ == series_of(samples@.take(i as int), name@),
        decreases samples@.len() - i,
    {
        proof {
            assert(samples@.take(i + 1).drop_last() =~= samples@.take(i as int));
            assert(samples@.take(i + 1).last() == samples@[i as int]);
        }
        match find_value(&samples[i], name) {
            Some(value) => {
                values.push(value);
            },
            None => {},
        }
        i = i + 1;
    }
    assert(samples@.take(i as int) =~= samples@);
    values
}

/// Every sample that has a phase counts once in the phase's values, and no other value does.
pub proof fn law_every_sample_counts<T>(samples: Seq<Vec<(String, T)>>, name: Seq<char>)
    requires
        forall|i: int|
            0 <= i < samples.len() ==> value_of((#[trigger] samples[i])@, name) is Some,
    ensures
        series_of(samples, name).len() == samples.len(),
        forall|i: int|
            0 <= i < samples.len() ==> Some(#[trigger] series_of(samples, name)[i]) == value_of(
                samples[i]@,
                name,
            ),
    decreases samples.len(),
{
    if samples.len() > 0 {
        let less = samples.drop_last();
        assert forall|i: int| 0 <= i < less.len() implies value_of(
            (#[trigger] less[i])@,
            name,
        ) is Some by {
            assert(less[i] == samples[i]);
        }
        law_every_sample_counts(less, name);
        assert(value_of(samples[samples.len() - 1]@, name) is Some);
        assert forall|i: int| 0 <= i < samples.len() implies Some(
            #[trigger] series_of(samples, name)[i],
        ) == value_of(samples[i]@, name) by {
            if i < less.len() {
                assert(series_of(samples, name)[i] == series_of(less, name)[i]);
                assert(less[i] == samples[i]);
            }
        }
    }
}

proof fn lemma_no_text_before_itself(a: Seq<char>)
    ensures
        !comes_before(a, a),
    decreases a.len(),
{
    if a.len() > 0 {
        lemma_no_text_before_itself(a.skip(1));
    }
}

/// In a list in the order of names no name stands twice, so that each phase has one column and
/// one summary.
pub proof fn law_each_phase_is_listed_once<T>(entries: Seq<(String, T)>, i: int, j: int)
    requires
        ordered_by_name(entries),
        0 <= i < j < entries.len(),
    ensures
        entries[i].0@ != entries[j].0@,
{
    lemma_no_text_before_itself(entries[i].0@);
}

} // verus!
