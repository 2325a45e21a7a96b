use ethlambda::report::{
    phase_series, phase_time, stats_row, Environment, Params, Report, SampleRow, StatsRow,
};
use ethlambda::text::{align_left, align_right, contains, decimal};

fn stats(count: usize) -> StatsRow {
    StatsRow {
        count,
        min: "1.000ms".to_string(),
        mean: "2.000ms".to_string(),
        p50: "2.500ms".to_string(),
        p90: "3.000ms".to_string(),
        max: "4.000ms".to_string(),
    }
}

fn report(samples: Vec<SampleRow>) -> Report {
    Report {
        environment: Environment {
            client_version: "ethlambda/v0.1.0".to_string(),
            leansig_rev: "abc".to_string(),
            leanvm_rev: "def".to_string(),
            os: "linux".to_string(),
            arch: "x86_64".to_string(),
            available_parallelism: 8,
        },
        params: Params {
            mode: "synthetic".to_string(),
            mock_crypto: true,
            num_validators: 4,
            warmup_slots: 8,
            proofs_per_data: 1,
            seed: 42,
            iterations: 10,
            enable_proposer_aggregation: false,
            max_attestations_per_block: 3,
        },
        samples,
        phases: vec![("select_payloads".to_string(), stats(1))],
        overhead: stats(12),
        wall: stats(12_345_678),
    }
}

fn sample(iteration: u64, phases: &[(&str, &str)]) -> SampleRow {
    SampleRow {
        iteration,
        phases: phases.iter().map(|(n, t)| (n.to_string(), t.to_string())).collect(),
        overhead: "0.100ms".to_string(),
        wall: "1.600ms".to_string(),
        block_root: "0x0123456789abcdef".to_string(),
    }
}

const HEAD: &str = "Block-building benchmark — synthetic workload (mock crypto)
  validators=4 warmup_slots=8 iterations=10 proofs_per_data=1 seed=42
  enable_proposer_aggregation=false max_attestations_per_block=3
  ethlambda/v0.1.0 leansig=abc leanvm=def os=linux arch=x86_64 threads=8

";

#[test]
fn a_report_without_samples_is_its_head() {
    assert_eq!(report(Vec::new()).human_table(), HEAD);
}

#[test]
fn a_report_lists_samples_and_summaries() {
    let table = report(vec![
        sample(1, &[("select_payloads", "1.500ms")]),
        sample(10, &[("other", "9.000ms")]),
    ])
    .human_table();
    let mut expected = HEAD.to_string();
    expected.push_str(&format!(
        "  {:<5} {:>16} {:>10} {:>10} {:>12}\n",
        "iter", "select_payloads", "overhead", "wall", "root"
    ));
    expected.push_str(&format!(
        "  {:<5} {:>16} {:>10} {:>10} {:>12}\n",
        1, "1.500ms", "0.100ms", "1.600ms", "0x01234567"
    ));
    expected.push_str(&format!(
        "  {:<5} {:>16} {:>10} {:>10} {:>12}\n",
        10, "0.000ms", "0.100ms", "1.600ms", "0x01234567"
    ));
    expected.push('\n');
    let row = |name: &str, count: &str| {
        format!(
            "  {:<18} {:>5} {:>10} {:>10} {:>10} {:>10} {:>10}\n",
            name, count, "1.000ms", "2.000ms", "2.500ms", "3.000ms", "4.000ms"
        )
    };
    expected.push_str(&format!(
        "  {:<18} {:>5} {:>10} {:>10} {:>10} {:>10} {:>10}\n",
        "phase", "count", "min", "mean", "p50", "p90", "max"
    ));
    expected.push_str(&row("select_payloads", "1"));
    expected.push_str(&row("overhead", "12"));
    expected.push_str(&row("wall", "12345678"));
    assert_eq!(table, expected);
}

#[test]
fn columns_come_in_the_order_of_the_first_sample() {
    let table = report(vec![
        sample(1, &[("compact", "1.000ms"), ("stf", "2.000ms")]),
        sample(2, &[("compact", "3.000ms"), ("extra", "9.000ms"), ("stf", "4.000ms")]),
    ])
    .human_table();
    let rows: Vec<&str> = table.lines().skip(5).take(3).collect();
    assert_eq!(
        rows[0],
        format!(
            "  {:<5} {:>16} {:>16} {:>10} {:>10} {:>12}",
            "iter", "compact", "stf", "overhead", "wall", "root"
        )
    );
    assert_eq!(
        rows[2],
        format!(
            "  {:<5} {:>16} {:>16} {:>10} {:>10} {:>12}",
            2, "3.000ms", "4.000ms", "0.100ms", "1.600ms", "0x01234567"
        )
    );
}

#[test]
fn roots_are_cut_by_their_bytes() {
    let mut row = sample(1, &[("a", "1.000ms")]);
    row.block_root = "éééééééééééé".to_string();
    let table = report(vec![row]).human_table();
    let line = table.lines().nth(6).expect("a sample");
    assert!(line.ends_with(&format!("{:>12}", "ééééé")), "{line}");
    assert!(line.ends_with(" ééééé"));
    assert!(!line.contains("éééééé"));
}

#[test]
fn a_summary_line_has_seven_columns() {
    assert_eq!(
        stats_row("wall", &stats(3)),
        "  wall                   3    1.000ms    2.000ms    2.500ms    3.000ms    4.000ms"
    );
}

#[test]
fn a_phase_without_a_time_took_none() {
    let phases = vec![("a".to_string(), "1.000ms".to_string())];
    assert_eq!(phase_time(&phases, &"a".to_string()), "1.000ms");
    assert_eq!(phase_time(&phases, &"b".to_string()), "0.000ms");
}

#[test]
fn a_series_takes_one_value_from_each_sample() {
    let samples = vec![
        vec![("a".to_string(), 1.5), ("b".to_string(), 2.5)],
        vec![("b".to_string(), 3.5)],
        vec![("a".to_string(), 100.0)],
    ];
    assert_eq!(phase_series(&samples, &"a".to_string()), vec![1.5, 100.0]);
    assert_eq!(phase_series(&samples, &"b".to_string()), vec![2.5, 3.5]);
    assert_eq!(phase_series(&samples, &"c".to_string()), Vec::<f64>::new());
}

#[test]
fn numbers_are_written_in_decimal() {
    for n in [0u64, 7, 10, 42, 99, 100, 1_000_000, u64::MAX] {
        assert_eq!(decimal(n), n.to_string());
    }
}

#[test]
fn columns_are_filled_and_never_cut() {
    assert_eq!(align_left("ab", 5), "ab   ");
    assert_eq!(align_right("ab", 5), "   ab");
    assert_eq!(align_left("abcdef", 5), "abcdef");
    assert_eq!(align_right("abcdef", 5), "abcdef");
    assert_eq!(align_right("—", 3), "  —");
}

#[test]
fn words_are_found_anywhere() {
    assert!(contains("connection reset by peer", "reset"));
    assert!(contains("reset", "reset"));
    assert!(contains("a reset", "reset"));
    assert!(!contains("rese", "reset"));
    assert!(!contains("re set", "reset"));
    assert!(contains("anything", ""));
    assert!(contains("", ""));
}
