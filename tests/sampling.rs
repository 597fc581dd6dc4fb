use fehstatsim::banner::Banner;
use fehstatsim::rates::{bases, probabilities};
use fehstatsim::weighted_choice::{WeightedIndex4, WeightedIndex6};
use rand::SeedableRng;

#[test]
fn pick_follows_running_totals() {
    let w = WeightedIndex4::new([1, 2, 3, 4]).unwrap();
    let expected = [0, 1, 1, 2, 2, 2, 3, 3, 3, 3];
    for (u, &e) in expected.iter().enumerate() {
        assert_eq!(w.pick(u as u64), e, "draw {}", u);
    }
    assert_eq!(w.total(), 10);
}

#[test]
fn pick_skips_zero_weights() {
    let w = WeightedIndex6::new([0, 3, 0, 0, 2, 0]).unwrap();
    assert_eq!(w.pick(0), 1);
    assert_eq!(w.pick(2), 1);
    assert_eq!(w.pick(3), 4);
    assert_eq!(w.pick(4), 4);
}

#[test]
fn all_zero_weights_give_no_sampler() {
    assert!(WeightedIndex4::new([0, 0, 0, 0]).is_none());
    assert!(WeightedIndex6::new([0; 6]).is_none());
}

#[test]
fn sampling_frequencies_follow_weights() {
    let w = WeightedIndex6::new([1, 2, 3, 4, 5, 5]).unwrap();
    let mut rng = rand::rngs::SmallRng::seed_from_u64(7);
    let mut counts = [0u32; 6];
    let n = 200_000;
    for _ in 0..n {
        counts[w.sample(&mut rng)] += 1;
    }
    let weights = [1.0, 2.0, 3.0, 4.0, 5.0, 5.0];
    for i in 0..6 {
        let expected = n as f64 * weights[i] / 20.0;
        let got = counts[i] as f64;
        assert!((got - expected).abs() < expected * 0.05, "category {}: {} vs {}", i, got, expected);
    }
}

#[test]
fn sampling_four_categories_uses_every_category() {
    let w = WeightedIndex4::new([1, 1, 1, 1]).unwrap();
    let mut rng = rand::rngs::SmallRng::seed_from_u64(3);
    let mut seen = [false; 4];
    for _ in 0..1000 {
        seen[w.sample(&mut rng)] = true;
    }
    assert_eq!(seen, [true; 4]);
}

fn banner(rates: (u8, u8)) -> Banner {
    Banner { focus_sizes: [1, 1, 1, 1], starting_rates: rates, focus_charges: false, fourstar_focus: None }
}

fn top(w: &[u64; 6]) -> u64 {
    w[0] + w[1]
}

#[test]
fn bases_normal_banner() {
    // Rates 3/3: top mass 6 points (1092 units), lower 17108 units; the
    // residual 91 points split 55:36 gives 10010 and 6552 units.
    let b = banner((3, 3));
    let scale = 1092u64 * 17108;
    let w = bases(&b);
    assert_eq!(w, [546 * scale, 546 * scale, 0, 546 * scale, 10010 * scale, 6552 * scale]);
    assert_eq!(w.iter().sum::<u64>(), 100 * 182 * scale);
}

#[test]
fn bases_special_tables() {
    let mut b = banner((3, 3));
    b.fourstar_focus = Some(fehstatsim::Color::Blue);
    let scale = 1092u64 * 17108;
    assert_eq!(bases(&b), [546 * scale, 546 * scale, 546 * scale, 546 * scale, 9464 * scale, 6552 * scale]);
    let b = banner((6, 0));
    assert_eq!(bases(&b), [1092 * scale, 0, 0, 546 * scale, 10374 * scale, 6188 * scale]);
}

#[test]
fn no_pity_is_base() {
    for rates in [(3, 3), (5, 3), (8, 0), (4, 2), (6, 0), (1, 0), (88, 0)] {
        let b = banner(rates);
        assert_eq!(probabilities(&b, 0), bases(&b));
    }
}

#[test]
fn pity_moves_half_a_point_per_step() {
    // 3/3 banner: one step moves 91 units (half a point) into the top tiers.
    let b = banner((3, 3));
    let scale = 1092u64 * 17108;
    let one_step = probabilities(&b, 1);
    assert_eq!(top(&one_step), (1092 + 91) * scale);
    assert_eq!(one_step[0], one_step[1]);
    assert_eq!(one_step.iter().sum::<u64>(), 100 * 182 * scale);
}

#[test]
fn top_mass_grows_with_pity_and_is_whole_at_max() {
    for rates in [(3, 3), (5, 3), (8, 0), (4, 2), (6, 0)] {
        let b = banner(rates);
        let whole: u64 = bases(&b).iter().sum();
        let mut last = 0;
        for p in 0..30 {
            let w = probabilities(&b, p);
            assert!(top(&w) >= last);
            last = top(&w);
            assert_eq!(w.iter().sum::<u64>(), whole);
            if p >= 25 {
                assert_eq!(top(&w), whole);
                assert_eq!(&w[2..], &[0, 0, 0, 0]);
            }
        }
    }
}
