use nbody::input::{parse_simulation, split_bytes, InputError, SimulationRecord, NEWLINE, SPACE};

const SAMPLE: &str = "0.015\n468.5\n2\n\n1.0\n0.0 0.0\n0.0 0.0\n\n3e-6\n0.0 1.0\n-1.0 0.0\n";

fn text(s: &str) -> Vec<u8> {
    s.as_bytes().to_vec()
}

fn number(b: &[u8]) -> f64 {
    std::str::from_utf8(b).unwrap().parse().unwrap()
}

fn numbers(v: &[Vec<u8>]) -> Vec<f64> {
    v.iter().map(|b| number(b)).collect()
}

fn parsed(s: &str) -> SimulationRecord {
    match parse_simulation(&text(s)) {
        Ok(r) => r,
        Err(e) => panic!("layout refused: {:?}", e),
    }
}

fn refusal(s: &str) -> InputError {
    match parse_simulation(&text(s)) {
        Ok(_) => panic!("layout accepted"),
        Err(e) => e,
    }
}

#[test]
fn parses_sample_layout() {
    let s = parsed(SAMPLE);
    assert_eq!(number(&s.delta_t), 0.015);
    assert_eq!(number(&s.t_end), 468.5);
    assert_eq!(s.particles.len(), 2);
    assert_eq!(number(&s.particles[0].mass), 1.0);
    assert_eq!(numbers(&s.particles[0].position), vec![0.0, 0.0]);
    assert_eq!(numbers(&s.particles[0].velocity), vec![0.0, 0.0]);
    assert_eq!(number(&s.particles[1].mass), 3e-6);
    assert_eq!(numbers(&s.particles[1].position), vec![0.0, 1.0]);
    assert_eq!(numbers(&s.particles[1].velocity), vec![-1.0, 0.0]);
}

#[test]
fn parses_without_final_newline_and_ignores_trailing_lines() {
    let s = parsed("0.5\n1\n1\n\n20\n0 1 2\n4 5 6");
    assert_eq!(s.particles.len(), 1);
    assert_eq!(numbers(&s.particles[0].position), vec![0.0, 1.0, 2.0]);
    assert_eq!(numbers(&s.particles[0].velocity), vec![4.0, 5.0, 6.0]);
    let t = parsed("0.5\n1\n0\nanything\nelse\n");
    assert_eq!(t.particles.len(), 0);
    assert_eq!(t.delta_t, b"0.5".to_vec());
}

#[test]
fn refuses_truncated_input() {
    assert_eq!(refusal(""), InputError::Truncated);
    assert_eq!(refusal("0.1\n2"), InputError::Truncated);
    assert_eq!(refusal("0.1\n2\n2\n\n1\n0 0\n0 0\n\n1\n0 1"), InputError::Truncated);
    assert_eq!(refusal("0.1\n2\n99999999999999999999999999\n"), InputError::Truncated);
}

#[test]
fn refuses_bad_count() {
    assert_eq!(refusal("0.1\n2\n\n"), InputError::BadCount);
    assert_eq!(refusal("0.1\n2\ntwo\n"), InputError::BadCount);
    assert_eq!(refusal("0.1\n2\n-1\n"), InputError::BadCount);
    assert_eq!(refusal("0.1\n2\n2.0\n"), InputError::BadCount);
}

#[test]
fn refuses_mixed_dimensions() {
    let velocity_short = "0.1\n2\n2\n\n1\n0 0\n0 0\n\n1\n0 1\n1\n";
    assert_eq!(refusal(velocity_short), InputError::DimensionMismatch { particle: 1 });
    let first_ragged = "0.1\n2\n2\n\n1\n0 0 0\n0 0\n\n1\n0 1\n1 0\n";
    assert_eq!(refusal(first_ragged), InputError::DimensionMismatch { particle: 0 });
}

#[test]
fn split_bytes_keeps_empty_pieces() {
    let parts = split_bytes(&text("a  b\n"), SPACE);
    assert_eq!(parts, vec![text("a"), text(""), text("b\n")]);
    assert_eq!(split_bytes(&text(""), NEWLINE), vec![text("")]);
    assert_eq!(split_bytes(&text("x\n"), NEWLINE), vec![text("x"), text("")]);
}
