use hakuro::double::{millis_cut_off, millis_rounded, seconds_rounded};

fn samples() -> Vec<f64> {
    let mut list = vec![
        0.0,
        -0.0,
        1.0,
        12.34,
        0.5,
        0.0005,
        0.0004999999999999999,
        180.0,
        255.999,
        -1.5,
        -0.0005,
        1e-320,
        f64::MIN_POSITIVE,
        1e15,
        9.223372036854775e15,
        9.3e15,
        1e300,
        -1e300,
        f64::MAX,
        f64::MIN,
        f64::INFINITY,
        f64::NEG_INFINITY,
        f64::NAN,
        4503599627370.4965,
        2.0f64.powi(52) / 1000.0,
    ];
    let mut seed: u64 = 42;
    for _ in 0..20_000 {
        seed = seed.wrapping_mul(6364136223846793005).wrapping_add(1442695040888963407);
        list.push(f64::from_bits(seed ^ (seed >> 29)));
        list.push((seed >> 40) as f64 / 1000.0);
    }
    list
}

#[test]
fn seconds_become_milliseconds_as_doubles_compute_them() {
    for seconds in samples() {
        let bits = seconds.to_bits();
        assert_eq!(millis_cut_off(bits), (seconds * 1000.0) as i64, "{seconds:e}");
        assert_eq!(
            millis_rounded(bits),
            (seconds * 1000.0).round() as i64,
            "{seconds:e}"
        );
    }
}

#[test]
fn milliseconds_become_whole_seconds_as_doubles_compute_them() {
    let mut list = vec![0, 1, 499, 500, 501, 1499, 1500, -1, -500, -501, i64::MAX, i64::MIN];
    let mut seed: u64 = 3;
    for _ in 0..20_000 {
        seed = seed.wrapping_mul(6364136223846793005).wrapping_add(1442695040888963407);
        list.push(seed as i64);
        list.push((seed >> 40) as i64);
    }
    for ms in list {
        assert_eq!(
            seconds_rounded(ms),
            (ms as f64 / 1000.0).round() as i64,
            "{ms}"
        );
    }
}
