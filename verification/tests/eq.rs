use y4music::eq::{
    balanced_profile, default_hifi_profile, Compand, Decimal, Echo, EqProfile, Loudnorm,
    StereoWidth, SubBoost,
};

fn decimal(thousandths: i64) -> Decimal {
    Decimal { thousandths }
}

#[test]
fn balanced_renders_expected_filtergraph() {
    assert_eq!(
        balanced_profile().render(),
        "volume=-6dB,\
aresample=48000:resampler=swr:precision=24:dither_method=shibata,\
anequalizer=c0 f=60 w=15 g=1.5|c1 f=60 w=15 g=1.5,\
compand=attacks=0.02:decays=0.1:points=-80/-80|-35/-35|0/-5,\
loudnorm=I=-16:LRA=10:TP=-2"
    );
}

#[test]
fn hifi_default_is_a_six_band_subtractive_eq_without_spatial_effects() {
    let filter = default_hifi_profile().render();
    assert!(filter.contains("f=60 w=40 g=1.5"), "sub-bass foundation");
    assert!(filter.contains("f=250 w=150 g=-1"), "mid-bass cut");
    assert!(filter.contains("f=1000 w=500 g=0"), "flat mid reference");
    assert!(filter.contains("f=3000 w=1000 g=-0.5"), "upper-mid cut");
    assert!(filter.contains("f=8000 w=2000 g=1.5"), "presence lift");
    assert!(filter.contains("f=14000 w=3000 g=1"), "air lift");
    assert!(!filter.contains("asubboost"));
    assert!(!filter.contains("extrastereo"));
    assert!(!filter.contains("aecho"));
    assert!(filter.contains("loudnorm=I=-16"), "loudness target");
}

#[test]
fn pre_gain_and_lowpass_are_placed_in_signal_flow_order() {
    // volume (pre-gain) leads the whole chain; lowpass sits right after
    // the EQ bands, ahead of compand/loudnorm -- see `EqProfile::render`.
    let filter = default_hifi_profile().render();
    assert!(filter.starts_with("volume=-6dB,"), "pre-gain leads: {filter}");

    let anequalizer_idx = filter.find("anequalizer=").expect("has EQ bands");
    let lowpass_idx = filter.find("lowpass=f=16000").expect("has lowpass");
    let compand_idx = filter.find("compand=").expect("has compand");
    assert!(
        anequalizer_idx < lowpass_idx && lowpass_idx < compand_idx,
        "expected anequalizer -> lowpass -> compand order, got: {filter}"
    );

    // Balanced has no lowpass configured, so it must not appear at all.
    assert!(!balanced_profile().render().contains("lowpass"));
}

#[test]
fn hifi_renders_the_whole_chain() {
    assert_eq!(
        default_hifi_profile().render(),
        "volume=-6dB,\
aresample=48000:resampler=swr:precision=33:dither_method=shibata,\
anequalizer=c0 f=60 w=40 g=1.5|c1 f=60 w=40 g=1.5|\
c0 f=250 w=150 g=-1|c1 f=250 w=150 g=-1|\
c0 f=1000 w=500 g=0|c1 f=1000 w=500 g=0|\
c0 f=3000 w=1000 g=-0.5|c1 f=3000 w=1000 g=-0.5|\
c0 f=8000 w=2000 g=1.5|c1 f=8000 w=2000 g=1.5|\
c0 f=14000 w=3000 g=1|c1 f=14000 w=3000 g=1,\
lowpass=f=16000,\
compand=attacks=0.02:decays=0.1:points=-80/-80|-35/-35|0/-5,\
loudnorm=I=-16:LRA=11:TP=-1.5"
    );
}

#[test]
fn decimals_render_in_their_shortest_form() {
    assert_eq!(decimal(-6000).render(), "-6");
    assert_eq!(decimal(0).render(), "0");
    assert_eq!(decimal(1500).render(), "1.5");
    assert_eq!(decimal(-500).render(), "-0.5");
    assert_eq!(decimal(20).render(), "0.02");
    assert_eq!(decimal(1).render(), "0.001");
    assert_eq!(decimal(1_234_567).render(), "1234.567");
    assert_eq!(decimal(10_010).render(), "10.01");
}

#[test]
fn every_optional_stage_has_its_place() {
    let profile = EqProfile {
        pre_gain_db: decimal(0),
        resample_precision: 28,
        bands: vec![],
        sub_boost: Some(SubBoost { cutoff_hz: decimal(100_000), feedback: decimal(700) }),
        stereo_width: Some(StereoWidth { m: decimal(1_200) }),
        echo: Some(Echo {
            in_gain: decimal(800),
            out_gain: decimal(900),
            delay_ms: decimal(40_000),
            decay: decimal(250),
        }),
        lowpass_hz: Some(decimal(18_000_000)),
        compand: Compand {
            attack_s: decimal(300),
            decay_s: decimal(800),
            points: vec![(decimal(-90_000), decimal(-90_000))],
        },
        loudnorm: Loudnorm {
            integrated_lufs: decimal(-14_000),
            range_lu: decimal(7_000),
            true_peak_dbtp: decimal(-1_000),
        },
    };
    assert_eq!(
        profile.render(),
        "volume=0dB,\
aresample=48000:resampler=swr:precision=28:dither_method=shibata,\
lowpass=f=18000,asubboost=cutoff=100:feedback=0.7,extrastereo=m=1.2,\
aecho=0.8:0.9:40:0.25,compand=attacks=0.3:decays=0.8:points=-90/-90,\
loudnorm=I=-14:LRA=7:TP=-1"
    );
}
