use y4music::double::{filled_cells, thousandths};
use y4music::time::Duration;

/// Numbers of all sizes, the same ones every time.
struct Numbers(u64);

impl Numbers {
    fn next(&mut self) -> u64 {
        self.0 = self.0.wrapping_mul(6_364_136_223_846_793_005).wrapping_add(1_442_695_040_888_963_407);
        let x = self.0 ^ (self.0 >> 29);
        x.wrapping_mul(0x9e37_79b9_7f4a_7c15) ^ (x >> 32)
    }

    fn span(&mut self) -> (u64, u32) {
        let secs = match self.next() % 4 {
            0 => 0,
            1 => self.next() % 100_000,
            _ => self.next() >> (self.next() % 64),
        };
        let nanos = match self.next() % 4 {
            0 => 0,
            1 => self.next() % 2_000 * 500_000,
            2 => self.next() % 1_000,
            _ => self.next() % 1_000_000_000,
        };
        (secs, (nanos % 1_000_000_000) as u32)
    }
}

fn cells_of(position: (u64, u32), total: (u64, u32)) -> usize {
    let position = std::time::Duration::new(position.0, position.1).as_secs_f64();
    let total = std::time::Duration::new(total.0, total.1).as_secs_f64();
    (20.0 * (position / total).clamp(0.0, 1.0)) as usize
}

fn check_cells(position: (u64, u32), total: (u64, u32)) {
    let n = filled_cells(
        Duration::new(position.0, position.1),
        Duration::new(total.0, total.1),
        20,
    );
    assert_eq!(n, cells_of(position, total), "{position:?} of {total:?}");
}

fn check_thousandths(span: (u64, u32)) {
    let n = thousandths(Duration::new(span.0, span.1));
    let secs = std::time::Duration::new(span.0, span.1).as_secs_f64();
    assert_eq!(format!("{}.{:03}", n / 1000, n % 1000), format!("{secs:.3}"), "{span:?}");
}

#[test]
fn thousandths_are_what_a_double_prints_as() {
    assert_eq!(thousandths(Duration::new(0, 500_000)), 1);
    assert_eq!(thousandths(Duration::new(0, 62_500_000)), 62);
    let mut numbers = Numbers(1);
    for _ in 0..100_000 {
        check_thousandths(numbers.span());
    }
    for half_millis in 0..20_000 {
        check_thousandths((half_millis / 2_000, (half_millis % 2_000) as u32 * 500_000));
    }
    for nanos in [0, 1, 499_999_999, 500_000_000, 500_000_001, 999_999_999] {
        for bits in 0..64 {
            check_thousandths((1 << bits, nanos));
            check_thousandths(((1 << bits) - 1, nanos));
            check_thousandths(((1u64 << bits).wrapping_add(1), nanos));
        }
        check_thousandths((u64::MAX, nanos));
    }
}

#[test]
fn cells_are_reckoned_in_doubles() {
    assert_eq!(filled_cells(Duration::new(1, 150_000_000), Duration::from_secs(23), 20), 0);
    assert_eq!(
        filled_cells(
            Duration::new(499_999_999, 999_999_999),
            Duration::from_secs(1_000_000_000),
            20
        ),
        10
    );
    let mut numbers = Numbers(2);
    for _ in 0..100_000 {
        let (a, b) = (numbers.span(), numbers.span());
        if b != (0, 0) {
            check_cells(a, b);
        }
    }
    for total in 1..400 {
        for position in 0..total + 2 {
            check_cells((position, 0), (total, 0));
        }
        for twentieth in 0..21 {
            let millis = total * twentieth * 50;
            check_cells((millis / 1000, (millis % 1000) as u32 * 1_000_000), (total, 0));
        }
    }
}

#[test]
fn the_end_fills_every_cell() {
    assert_eq!(filled_cells(Duration::from_secs(5), Duration::from_secs(5), 20), 20);
    assert_eq!(filled_cells(Duration::from_secs(9), Duration::from_secs(5), 20), 20);
    assert_eq!(filled_cells(Duration::from_secs(9), Duration::from_secs(5), 0), 0);
    assert_eq!(filled_cells(Duration::zero(), Duration::from_secs(5), 20), 0);
}
