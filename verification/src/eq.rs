//! Structured knobs for the ffmpeg `-af` filtergraphs of Balanced and Hi-Fi
//! playback. Each field controls exactly one filter parameter;
//! `EqProfile::render` assembles them into the final filter string.

use vstd::prelude::*;

use crate::text;
use crate::text::{join, nat_string, push_nat};

verus! {

/// A filter parameter: a decimal number with up to three fractional digits.
#[derive(Clone, Copy, Debug, PartialEq, Eq, Structural)]
pub struct Decimal {
    pub thousandths: i64,
}

/// The fractional digits of `rest` thousandths, without trailing zeros and
/// with the decimal point, if there are any.
pub open spec fn fraction_text(rest: int) -> Seq<char> {
    if rest == 0 {
        Seq::empty()
    } else if rest % 100 == 0 {
        seq!['.', crate::text::digit_char(rest / 100)]
    } else if rest % 10 == 0 {
        seq![
            '.',
            crate::text::digit_char(rest / 100),
            crate::text::digit_char(rest / 10 % 10),
        ]
    } else {
        seq![
            '.',
            crate::text::digit_char(rest / 100),
            crate::text::digit_char(rest / 10 % 10),
            crate::text::digit_char(rest % 10),
        ]
    }
}

/// The shortest decimal form of a number of thousandths.
pub open spec fn decimal_text(thousandths: int) -> Seq<char> {
    let size = if thousandths < 0 {
        -thousandths
    } else {
        thousandths
    };
    let digits = text::nat_text((size / 1000) as nat) + fraction_text(size % 1000);
    if thousandths < 0 {
        seq!['-'] + digits
    } else {
        digits
    }
}

impl View for Decimal {
    type V = Seq<char>;

    open spec fn view(&self) -> Seq<char> {
        decimal_text(self.thousandths as int)
    }
}

impl Decimal {
    /// The number in its shortest decimal form.
    pub fn render(self) -> (text: String)
        ensures
            text@ == self@,
    {
        let mut text = String::new();
        let size: u64 = if self.thousandths < 0 {
            text.push('-');
            (-(self.thousandths as i128)) as u64
        } else {
            self.thousandths as u64
        };
        let ghost sign = text@;
        push_nat(&mut text, size / 1000);
        let rest: u64 = size % 1000;
        let ghost whole = text@;
        if rest != 0 {
            text.push('.');
            text.push((48u8 + (rest / 100) as u8) as char);
            if rest % 100 != 0 {
                text.push((48u8 + (rest / 10 % 10) as u8) as char);
                if rest % 10 != 0 {
                    text.push((48u8 + (rest % 10) as u8) as char);
                }
            }
        }
        assert(text@ =~= whole + fraction_text(rest as int));
        assert(text@ =~= self@);
        text
    }
}

/// One `anequalizer` parametric band, applied identically to both channels.
#[derive(Clone, Copy, Debug, PartialEq, Eq, Structural)]
pub struct EqBand {
    pub freq_hz: Decimal,
    pub width_hz: Decimal,
    pub gain_db: Decimal,
}

impl EqBand {
    /// The band's knobs for one channel.
    pub open spec fn knobs(self) -> Seq<char> {
        " f="@ + self.freq_hz@ + " w="@ + self.width_hz@ + " g="@ + self.gain_db@
    }

    /// The band as a pair of per-channel entries.
    pub open spec fn filter(self) -> Seq<char> {
        "c0"@ + self.knobs() + "|c1"@ + self.knobs()
    }

    /// Renders the band for both channels.
    pub fn render(self) -> (text: String)
        ensures
            text@ == self.filter(),
    {
        let mut knobs = " f=".to_owned();
        knobs.append(self.freq_hz.render().as_str());
        knobs.append(" w=");
        knobs.append(self.width_hz.render().as_str());
        knobs.append(" g=");
        knobs.append(self.gain_db.render().as_str());
        let mut text = "c0".to_owned();
        text.append(knobs.as_str());
        text.append("|c1");
        text.append(knobs.as_str());
        text
    }
}

/// `asubboost`: reinforces low end below `cutoff_hz`, fed back at `feedback`.
#[derive(Clone, Copy, Debug, PartialEq, Eq, Structural)]
pub struct SubBoost {
    pub cutoff_hz: Decimal,
    pub feedback: Decimal,
}

/// `extrastereo`: widens the stereo image by factor `m` (1 = unchanged).
#[derive(Clone, Copy, Debug, PartialEq, Eq, Structural)]
pub struct StereoWidth {
    pub m: Decimal,
}

/// `aecho`: a single echo/ambience tap.
#[derive(Clone, Copy, Debug, PartialEq, Eq, Structural)]
pub struct Echo {
    pub in_gain: Decimal,
    pub out_gain: Decimal,
    pub delay_ms: Decimal,
    pub decay: Decimal,
}

/// `compand`: dynamic range compression. `points` is a piecewise
/// input/output dB transfer curve.
#[derive(Clone, Debug)]
pub struct Compand {
    pub attack_s: Decimal,
    pub decay_s: Decimal,
    pub points: Vec<(Decimal, Decimal)>,
}

/// `loudnorm`: EBU R128 loudness normalization target.
#[derive(Clone, Copy, Debug, PartialEq, Eq, Structural)]
pub struct Loudnorm {
    pub integrated_lufs: Decimal,
    pub range_lu: Decimal,
    pub true_peak_dbtp: Decimal,
}

/// A full playback EQ chain: an upstream pre-gain for headroom, then
/// resample/dither precision, optional equalizer bands, an optional lowpass
/// to shed inaudible high-frequency energy, optional spatial effects, then
/// compand + loudnorm.
#[derive(Clone, Debug)]
pub struct EqProfile {
    /// Applied first, via ffmpeg's `volume` filter (e.g. `-6` =
    /// `volume=-6dB`). Trims headroom *before* any EQ boost, so a band lift
    /// downstream can't push a sample over 0dBFS and clip.
    pub pre_gain_db: Decimal,
    pub resample_precision: u32,
    pub bands: Vec<EqBand>,
    pub sub_boost: Option<SubBoost>,
    pub stereo_width: Option<StereoWidth>,
    pub echo: Option<Echo>,
    /// Cutoff for a `lowpass` filter inserted right after the EQ bands, e.g.
    /// 16000 = `lowpass=f=16000`. `None` skips it entirely.
    pub lowpass_hz: Option<Decimal>,
    pub compand: Compand,
    pub loudnorm: Loudnorm,
}

/// A list of one element, or of none.
pub open spec fn optional(part: Option<Seq<char>>) -> Seq<Seq<char>> {
    match part {
        Some(text) => seq![text],
        None => Seq::empty(),
    }
}

/// Adds a stage to the chain, if it is there.
fn push_optional(parts: &mut Vec<String>, stage: Option<String>)
    ensures
        text::texts(final(parts)@) == text::texts(old(parts)@) + optional(text::opt_text(stage)),
{
    if let Some(text) = stage {
        parts.push(text);
    }
    assert(text::texts(parts@) =~= text::texts(old(parts)@) + optional(text::opt_text(stage)));
}

impl EqProfile {
    /// The `volume` stage.
    pub open spec fn volume_stage(self) -> Seq<char> {
        "volume="@ + self.pre_gain_db@ + "dB"@
    }

    /// The `aresample` stage.
    pub open spec fn resample_stage(self) -> Seq<char> {
        "aresample=48000:resampler=swr:precision="@ + text::nat_text(self.resample_precision as nat)
            + ":dither_method=shibata"@
    }

    /// The `anequalizer` stage, when there are bands.
    pub open spec fn bands_stage(self) -> Option<Seq<char>> {
        if self.bands@.len() > 0 {
            Some("anequalizer="@ + text::joined(self.bands@.map_values(|b: EqBand| b.filter()), "|"@))
        } else {
            None
        }
    }

    /// The `lowpass` stage, when a cutoff is set.
    pub open spec fn lowpass_stage(self) -> Option<Seq<char>> {
        match self.lowpass_hz {
            Some(hz) => Some("lowpass=f="@ + hz@),
            None => None,
        }
    }

    /// The `asubboost` stage, when set.
    pub open spec fn sub_boost_stage(self) -> Option<Seq<char>> {
        match self.sub_boost {
            Some(s) => Some("asubboost=cutoff="@ + s.cutoff_hz@ + ":feedback="@ + s.feedback@),
            None => None,
        }
    }

    /// The `extrastereo` stage, when set.
    pub open spec fn stereo_stage(self) -> Option<Seq<char>> {
        match self.stereo_width {
            Some(s) => Some("extrastereo=m="@ + s.m@),
            None => None,
        }
    }

    /// The `aecho` stage, when set.
    pub open spec fn echo_stage(self) -> Option<Seq<char>> {
        match self.echo {
            Some(e) => Some(
                "aecho="@ + e.in_gain@ + ":"@ + e.out_gain@ + ":"@ + e.delay_ms@ + ":"@ + e.decay@,
            ),
            None => None,
        }
    }

    /// The `compand` stage.
    pub open spec fn compand_stage(self) -> Seq<char> {
        "compand=attacks="@ + self.compand.attack_s@ + ":decays="@ + self.compand.decay_s@
            + ":points="@ + text::joined(
            self.compand.points@.map_values(|p: (Decimal, Decimal)| p.0@ + "/"@ + p.1@),
            "|"@,
        )
    }

    /// The `loudnorm` stage.
    pub open spec fn loudnorm_stage(self) -> Seq<char> {
        "loudnorm=I="@ + self.loudnorm.integrated_lufs@ + ":LRA="@ + self.loudnorm.range_lu@
            + ":TP="@ + self.loudnorm.true_peak_dbtp@
    }

    /// Every stage, in signal-flow order.
    pub open spec fn stages(self) -> Seq<Seq<char>> {
        seq![self.volume_stage(), self.resample_stage()] + optional(self.bands_stage()) + optional(
            self.lowpass_stage(),
        ) + optional(self.sub_boost_stage()) + optional(self.stereo_stage()) + optional(
            self.echo_stage(),
        ) + seq![self.compand_stage(), self.loudnorm_stage()]
    }

    /// Renders this profile to an ffmpeg `-af` filtergraph string, in
    /// signal-flow order: pre-gain -> resample -> EQ bands -> lowpass ->
    /// spatial effects -> compand -> loudnorm. Pre-gain leads so downstream
    /// boosts have headroom to work with instead of clipping; lowpass
    /// follows the EQ bands so it trims whatever high-frequency energy they
    /// didn't already remove.
    pub fn render(&self) -> (filter: String)
        ensures
            filter@ == text::joined(self.stages(), ","@),
    {
        let mut parts: Vec<String> = Vec::new();
        parts.push(self.render_volume());
        parts.push(self.render_resample());
        assert(text::texts(parts@) =~= seq![self.volume_stage(), self.resample_stage()]);
        push_optional(&mut parts, self.render_bands());
        push_optional(&mut parts, self.render_lowpass());
        push_optional(&mut parts, self.render_sub_boost());
        push_optional(&mut parts, self.render_stereo());
        push_optional(&mut parts, self.render_echo());
        let ghost done = text::texts(parts@);
        parts.push(self.render_compand());
        parts.push(self.render_loudnorm());
        assert(text::texts(parts@) =~= done + seq![self.compand_stage(), self.loudnorm_stage()]);
        join(&parts, ",")
    }

    fn render_volume(&self) -> (stage: String)
        ensures
            stage@ == self.volume_stage(),
    {
        let mut stage = "volume=".to_owned();
        stage.append(self.pre_gain_db.render().as_str());
        stage.append("dB");
        stage
    }

    fn render_resample(&self) -> (stage: String)
        ensures
            stage@ == self.resample_stage(),
    {
        let mut stage = "aresample=48000:resampler=swr:precision=".to_owned();
        stage.append(nat_string(self.resample_precision as u64).as_str());
        stage.append(":dither_method=shibata");
        stage
    }

    fn render_bands(&self) -> (stage: Option<String>)
        ensures
            text::opt_text(stage) == self.bands_stage(),
    {
        if self.bands.len() == 0 {
            return None;
        }
        let mut stage = "anequalizer=".to_owned();
        stage.append(self.band_entries().as_str());
        Some(stage)
    }

    fn render_lowpass(&self) -> (stage: Option<String>)
        ensures
            text::opt_text(stage) == self.lowpass_stage(),
    {
        match self.lowpass_hz {
            Some(hz) => {
                let mut stage = "lowpass=f=".to_owned();
                stage.append(hz.render().as_str());
                Some(stage)
            },
            None => None,
        }
    }

    fn render_sub_boost(&self) -> (stage: Option<String>)
        ensures
            text::opt_text(stage) == self.sub_boost_stage(),
    {
        match self.sub_boost {
            Some(s) => {
                let mut stage = "asubboost=cutoff=".to_owned();
                stage.append(s.cutoff_hz.render().as_str());
                stage.append(":feedback=");
                stage.append(s.feedback.render().as_str());
                Some(stage)
            },
            None => None,
        }
    }

    fn render_stereo(&self) -> (stage: Option<String>)
        ensures
            text::opt_text(stage) == self.stereo_stage(),
    {
        match self.stereo_width {
            Some(s) => {
                let mut stage = "extrastereo=m=".to_owned();
                stage.append(s.m.render().as_str());
                Some(stage)
            },
            None => None,
        }
    }

    fn render_echo(&self) -> (stage: Option<String>)
        ensures
            text::opt_text(stage) == self.echo_stage(),
    {
        match self.echo {
            Some(e) => {
                let mut stage = "aecho=".to_owned();
                stage.append(e.in_gain.render().as_str());
                stage.append(":");
                stage.append(e.out_gain.render().as_str());
                stage.append(":");
                stage.append(e.delay_ms.render().as_str());
                stage.append(":");
                stage.append(e.decay.render().as_str());
                Some(stage)
            },
            None => None,
        }
    }

    fn render_compand(&self) -> (stage: String)
        ensures
            stage@ == self.compand_stage(),
    {
        let mut stage = "compand=attacks=".to_owned();
        stage.append(self.compand.attack_s.render().as_str());
        stage.append(":decays=");
        stage.append(self.compand.decay_s.render().as_str());
        stage.append(":points=");
        stage.append(self.point_entries().as_str());
        stage
    }

    fn render_loudnorm(&self) -> (stage: String)
        ensures
            stage@ == self.loudnorm_stage(),
    {
        let mut stage = "loudnorm=I=".to_owned();
        stage.append(self.loudnorm.integrated_lufs.render().as_str());
        stage.append(":LRA=");
        stage.append(self.loudnorm.range_lu.render().as_str());
        stage.append(":TP=");
        stage.append(self.loudnorm.true_peak_dbtp.render().as_str());
        stage
    }

    /// The bands' entries, one after the other.
    fn band_entries(&self) -> (text: String)
        ensures
            text@ == text::joined(self.bands@.map_values(|b: EqBand| b.filter()), "|"@),
    {
        let mut entries: Vec<String> = Vec::new();
        let mut i: usize = 0;
        while i < self.bands.len()
            invariant
                i <= self.bands@.len(),
                entries@.len() == i,
                forall|j: int| 0 <= j < i ==> (#[trigger] entries@[j])@ == self.bands@[j].filter(),
            decreases self.bands@.len() - i,
        {
            entries.push(self.bands[i].render());
            i += 1;
        }
        assert(text::texts(entries@) =~= self.bands@.map_values(|b: EqBand| b.filter()));
        join(&entries, "|")
    }

    /// The transfer curve's points, one after the other.
    fn point_entries(&self) -> (text: String)
        ensures
            text@ == text::joined(
                self.compand.points@.map_values(|p: (Decimal, Decimal)| p.0@ + "/"@ + p.1@),
                "|"@,
            ),
    {
        let mut entries: Vec<String> = Vec::new();
        let mut i: usize = 0;
        while i < self.compand.points.len()
            invariant
                i <= self.compand.points@.len(),
                entries@.len() == i,
                forall|j: int|
                    0 <= j < i ==> (#[trigger] entries@[j])@ == self.compand.points@[j].0@ + "/"@
                        + self.compand.points@[j].1@,
            decreases self.compand.points@.len() - i,
        {
            let (input, output) = self.compand.points[i];
            let mut entry = input.render();
            entry.append("/");
            entry.append(output.render().as_str());
            entries.push(entry);
            i += 1;
        }
        assert(text::texts(entries@) =~= self.compand.points@.map_values(
            |p: (Decimal, Decimal)| p.0@ + "/"@ + p.1@,
        ));
        join(&entries, "|")
    }
}

/// The number of so many thousandths.
pub open spec fn decimal_of(thousandths: int) -> Decimal {
    Decimal { thousandths: thousandths as i64 }
}

/// The transfer curve that both built-in profiles compress with.
pub open spec fn gentle_points() -> Seq<(Decimal, Decimal)> {
    seq![
        (decimal_of(-80_000), decimal_of(-80_000)),
        (decimal_of(-35_000), decimal_of(-35_000)),
        (decimal_of(0), decimal_of(-5_000)),
    ]
}

/// The transfer curve that both built-in profiles compress with.
fn gentle_curve() -> (points: Vec<(Decimal, Decimal)>)
    ensures
        points@ == gentle_points(),
{
    let mut points: Vec<(Decimal, Decimal)> = Vec::new();
    points.push((Decimal { thousandths: -80_000 }, Decimal { thousandths: -80_000 }));
    points.push((Decimal { thousandths: -35_000 }, Decimal { thousandths: -35_000 }));
    points.push((Decimal { thousandths: 0 }, Decimal { thousandths: -5_000 }));
    points
}

/// A band from its three knobs, in thousandths.
pub open spec fn band_of(freq: int, width: int, gain: int) -> EqBand {
    EqBand {
        freq_hz: decimal_of(freq),
        width_hz: decimal_of(width),
        gain_db: decimal_of(gain),
    }
}

/// A band from its three knobs, in thousandths.
fn band(freq: i64, width: i64, gain: i64) -> (b: EqBand)
    ensures
        b == band_of(freq as int, width as int, gain as int),
{
    EqBand {
        freq_hz: Decimal { thousandths: freq },
        width_hz: Decimal { thousandths: width },
        gain_db: Decimal { thousandths: gain },
    }
}

/// Balanced mode's filtergraph.
pub open spec fn balanced_filter() -> Seq<char> {
    text::joined(
        seq![
            "volume="@ + decimal_text(-6_000) + "dB"@,
            "aresample=48000:resampler=swr:precision="@ + text::nat_text(24) + ":dither_method=shibata"@,
            "anequalizer="@ + text::joined(seq![band_of(60_000, 15_000, 1_500).filter()], "|"@),
            "compand=attacks="@ + decimal_text(20) + ":decays="@ + decimal_text(100) + ":points="@
                + text::joined(
                gentle_points().map_values(|p: (Decimal, Decimal)| p.0@ + "/"@ + p.1@),
                "|"@,
            ),
            "loudnorm=I="@ + decimal_text(-16_000) + ":LRA="@ + decimal_text(10_000) + ":TP="@
                + decimal_text(-2_000),
        ],
        ","@,
    )
}

/// Balanced mode: a mild bass lift plus gentle normalization. Hardcoded, not
/// operator-configurable.
pub fn balanced_profile() -> (profile: EqProfile)
    ensures
        profile.pre_gain_db.thousandths == -6_000,
        profile.resample_precision == 24,
        profile.bands@ == seq![band_of(60_000, 15_000, 1_500)],
        profile.sub_boost is None,
        profile.stereo_width is None,
        profile.echo is None,
        profile.lowpass_hz is None,
        profile.compand.attack_s.thousandths == 20,
        profile.compand.decay_s.thousandths == 100,
        profile.compand.points@ == gentle_points(),
        profile.loudnorm.integrated_lufs.thousandths == -16_000,
        profile.loudnorm.range_lu.thousandths == 10_000,
        profile.loudnorm.true_peak_dbtp.thousandths == -2_000,
        text::joined(profile.stages(), ","@) == balanced_filter(),
{
    let mut bands: Vec<EqBand> = Vec::new();
    bands.push(band(60_000, 15_000, 1_500));
    let profile = EqProfile {
        pre_gain_db: Decimal { thousandths: -6_000 },
        resample_precision: 24,
        bands,
        sub_boost: None,
        stereo_width: None,
        echo: None,
        lowpass_hz: None,
        compand: Compand {
            attack_s: Decimal { thousandths: 20 },
            decay_s: Decimal { thousandths: 100 },
            points: gentle_curve(),
        },
        loudnorm: Loudnorm {
            integrated_lufs: Decimal { thousandths: -16_000 },
            range_lu: Decimal { thousandths: 10_000 },
            true_peak_dbtp: Decimal { thousandths: -2_000 },
        },
    };
    proof {
        assert(profile.bands@.map_values(|b: EqBand| b.filter()) =~= seq![
            band_of(60_000, 15_000, 1_500).filter(),
        ]);
        assert(profile.stages() =~= seq![
            profile.volume_stage(),
            profile.resample_stage(),
            profile.bands_stage()->0,
            profile.compand_stage(),
            profile.loudnorm_stage(),
        ]);
    }
    profile
}

/// The bands of Hi-Fi mode's built-in profile.
pub open spec fn hifi_bands() -> Seq<EqBand> {
    seq![
        band_of(60_000, 40_000, 1_500),
        band_of(250_000, 150_000, -1_000),
        band_of(1_000_000, 500_000, 0),
        band_of(3_000_000, 1_000_000, -500),
        band_of(8_000_000, 2_000_000, 1_500),
        band_of(14_000_000, 3_000_000, 1_000),
    ]
}

/// The filtergraph of Hi-Fi mode's built-in profile.
pub open spec fn hifi_filter() -> Seq<char> {
    text::joined(
        seq![
            "volume="@ + decimal_text(-6_000) + "dB"@,
            "aresample=48000:resampler=swr:precision="@ + text::nat_text(33)
                + ":dither_method=shibata"@,
            "anequalizer="@ + text::joined(
                hifi_bands().map_values(|b: EqBand| b.filter()),
                "|"@,
            ),
            "lowpass=f="@ + decimal_text(16_000_000),
            "compand=attacks="@ + decimal_text(20) + ":decays="@ + decimal_text(100) + ":points="@
                + text::joined(
                gentle_points().map_values(|p: (Decimal, Decimal)| p.0@ + "/"@ + p.1@),
                "|"@,
            ),
            "loudnorm=I="@ + decimal_text(-16_000) + ":LRA="@ + decimal_text(11_000) + ":TP="@
                + decimal_text(-1_500),
        ],
        ","@,
    )
}

/// Hi-Fi mode's built-in default, used unless the operator configures a raw
/// `-af` string.
///
/// A 6-band subtractive parametric EQ: rather than boosting everything, it
/// cuts the bands that cause muddiness (mid-bass) and listening fatigue
/// (upper-mid) and only lifts the bands that add clarity and air. `compand`
/// and `loudnorm` are aligned with Balanced's headroom-conscious targets,
/// with a slightly wider loudness range and less peak limiting to preserve
/// more dynamics. The 16 kHz lowpass sheds content that is inaudible to
/// nearly everyone but inflates the Opus encoder's bitrate demand.
pub fn default_hifi_profile() -> (profile: EqProfile)
    ensures
        profile.pre_gain_db.thousandths == -6_000,
        profile.resample_precision == 33,
        profile.bands@ == hifi_bands(),
        profile.sub_boost is None,
        profile.stereo_width is None,
        profile.echo is None,
        profile.lowpass_hz == Some(decimal_of(16_000_000)),
        profile.compand.attack_s.thousandths == 20,
        profile.compand.decay_s.thousandths == 100,
        profile.compand.points@ == gentle_points(),
        profile.loudnorm.integrated_lufs.thousandths == -16_000,
        profile.loudnorm.range_lu.thousandths == 11_000,
        profile.loudnorm.true_peak_dbtp.thousandths == -1_500,
        text::joined(profile.stages(), ","@) == hifi_filter(),
{
    let mut bands: Vec<EqBand> = Vec::new();
    // Sub-Bass: foundation.
    bands.push(band(60_000, 40_000, 1_500));
    // Mid-Bass: cut to remove muddiness.
    bands.push(band(250_000, 150_000, -1_000));
    // Mid: reference point, left flat.
    bands.push(band(1_000_000, 500_000, 0));
    // Upper-Mid: cut to reduce listening fatigue.
    bands.push(band(3_000_000, 1_000_000, -500));
    // Presence: clarity.
    bands.push(band(8_000_000, 2_000_000, 1_500));
    // Air: sense of openness.
    bands.push(band(14_000_000, 3_000_000, 1_000));
    let profile = EqProfile {
        pre_gain_db: Decimal { thousandths: -6_000 },
        resample_precision: 33,
        bands,
        sub_boost: None,
        stereo_width: None,
        echo: None,
        lowpass_hz: Some(Decimal { thousandths: 16_000_000 }),
        compand: Compand {
            attack_s: Decimal { thousandths: 20 },
            decay_s: Decimal { thousandths: 100 },
            points: gentle_curve(),
        },
        loudnorm: Loudnorm {
            integrated_lufs: Decimal { thousandths: -16_000 },
            range_lu: Decimal { thousandths: 11_000 },
            true_peak_dbtp: Decimal { thousandths: -1_500 },
        },
    };
    proof {
        assert(profile.bands@ =~= hifi_bands());
        assert(profile.stages() =~= seq![
            profile.volume_stage(),
            profile.resample_stage(),
            profile.bands_stage()->0,
            profile.lowpass_stage()->0,
            profile.compand_stage(),
            profile.loudnorm_stage(),
        ]);
    }
    profile
}

/// How many stages an optional one makes.
pub open spec fn stage_count(part: Option<Seq<char>>) -> int {
    if part is Some {
        1
    } else {
        0
    }
}

/// In every profile the pre-gain leads the chain and the compressor and the
/// loudness stage close it; the EQ bands, when there are any, come right
/// after the resampler, and a configured lowpass comes right after them,
/// ahead of everything else.
pub proof fn law_signal_flow_order(profile: EqProfile)
    ensures
        profile.stages()[0] == profile.volume_stage(),
        profile.stages()[1] == profile.resample_stage(),
        profile.bands_stage() matches Some(bands) ==> profile.stages()[2] == bands,
        profile.lowpass_stage() matches Some(lowpass) ==> profile.stages()[2 + stage_count(
            profile.bands_stage(),
        )] == lowpass,
        profile.stages()[profile.stages().len() - 2] == profile.compand_stage(),
        profile.stages().last() == profile.loudnorm_stage(),
{
}

/// A stage that is not configured adds nothing to the chain: there are
/// exactly the four fixed stages and one more for each one configured.
pub proof fn law_unset_stages_are_absent(profile: EqProfile)
    ensures
        profile.stages().len() == 4 + stage_count(profile.bands_stage()) + stage_count(
            profile.lowpass_stage(),
        ) + stage_count(profile.sub_boost_stage()) + stage_count(profile.stereo_stage())
            + stage_count(profile.echo_stage()),
{
}

/// A number's decimal form reads back: a minus sign below zero, the whole
/// part, and up to three fractional digits of which the last is not zero.
pub proof fn law_decimals_read_back(thousandths: int)
    ensures
        ({
            let size = if thousandths < 0 {
                -thousandths
            } else {
                thousandths
            };
            let written = decimal_text(thousandths);
            let digits = if thousandths < 0 {
                written.skip(1)
            } else {
                written
            };
            let whole = text::nat_text((size / 1000) as nat);
            &&& thousandths < 0 ==> written.len() > 0 && written[0] == '-'
            &&& digits.len() >= whole.len()
            &&& digits.take(whole.len() as int) == whole
            &&& ({
                let tail = digits.skip(whole.len() as int);
                &&& size % 1000 == 0 <==> tail.len() == 0
                &&& tail.len() > 0 ==> tail[0] == '.' && 2 <= tail.len() <= 4 && tail.last() != '0'
                &&& tail.len() == 2 ==> text::digits_value(tail.skip(1)) * 100 == size % 1000
                &&& tail.len() == 3 ==> text::digits_value(tail.skip(1)) * 10 == size % 1000
                &&& tail.len() == 4 ==> text::digits_value(tail.skip(1)) == size % 1000
            })
        }),
{
    let size = if thousandths < 0 {
        -thousandths
    } else {
        thousandths
    };
    let written = decimal_text(thousandths);
    let whole = text::nat_text((size / 1000) as nat);
    let rest = size % 1000;
    let tail = fraction_text(rest);
    let digits = whole + tail;
    if thousandths < 0 {
        assert(written.skip(1) =~= digits);
    }
    assert(digits.take(whole.len() as int) =~= whole);
    assert(digits.skip(whole.len() as int) =~= tail);
    let a = text::digit_char(rest / 100);
    let b = text::digit_char(rest / 10 % 10);
    let c = text::digit_char(rest % 10);
    text::law_digits_are_positional(Seq::empty(), a);
    text::law_digits_are_positional(seq![a], b);
    text::law_digits_are_positional(seq![a, b], c);
    assert(Seq::<char>::empty().push(a) =~= seq![a]);
    assert(seq![a].push(b) =~= seq![a, b]);
    assert(seq![a, b].push(c) =~= seq![a, b, c]);
    if rest == 0 {
    } else if rest % 100 == 0 {
        assert(tail.skip(1) =~= seq![a]);
    } else if rest % 10 == 0 {
        assert(tail.skip(1) =~= seq![a, b]);
    } else {
        assert(tail.skip(1) =~= seq![a, b, c]);
    }
}

/// Each stage is there exactly if its knobs are, and carries exactly those.
pub proof fn law_stages_carry_their_knobs(profile: EqProfile)
    ensures
        profile.volume_stage() == "volume="@ + decimal_text(profile.pre_gain_db.thousandths as int)
            + "dB"@,
        profile.resample_stage() == "aresample=48000:resampler=swr:precision="@ + text::nat_text(
            profile.resample_precision as nat,
        ) + ":dither_method=shibata"@,
        profile.bands_stage() is Some <==> profile.bands@.len() > 0,
        profile.lowpass_stage() is Some <==> profile.lowpass_hz is Some,
        profile.lowpass_hz matches Some(hz) ==> profile.lowpass_stage() == Some(
            "lowpass=f="@ + decimal_text(hz.thousandths as int),
        ),
        profile.sub_boost_stage() is Some <==> profile.sub_boost is Some,
        profile.sub_boost matches Some(s) ==> profile.sub_boost_stage() == Some(
            "asubboost=cutoff="@ + decimal_text(s.cutoff_hz.thousandths as int) + ":feedback="@
                + decimal_text(s.feedback.thousandths as int),
        ),
        profile.stereo_stage() is Some <==> profile.stereo_width is Some,
        profile.stereo_width matches Some(s) ==> profile.stereo_stage() == Some(
            "extrastereo=m="@ + decimal_text(s.m.thousandths as int),
        ),
        profile.echo_stage() is Some <==> profile.echo is Some,
        profile.echo matches Some(e) ==> profile.echo_stage() == Some(
            "aecho="@ + decimal_text(e.in_gain.thousandths as int) + ":"@ + decimal_text(
                e.out_gain.thousandths as int,
            ) + ":"@ + decimal_text(e.delay_ms.thousandths as int) + ":"@ + decimal_text(
                e.decay.thousandths as int,
            ),
        ),
        profile.loudnorm_stage() == "loudnorm=I="@ + decimal_text(
            profile.loudnorm.integrated_lufs.thousandths as int,
        ) + ":LRA="@ + decimal_text(profile.loudnorm.range_lu.thousandths as int) + ":TP="@
            + decimal_text(profile.loudnorm.true_peak_dbtp.thousandths as int),
{
}

/// The equalizer stage has an entry for each band, in order, with the band's
/// frequency, width and gain on both channels; and the compressor stage one
/// for each point of its curve.
pub proof fn law_bands_and_points_are_listed(profile: EqProfile, bands: Seq<Seq<char>>, points: Seq<Seq<char>>)
    requires
        bands.len() == profile.bands@.len(),
        forall|i: int|
            0 <= i < bands.len() ==> #[trigger] bands[i] == ({
                let b = profile.bands@[i];
                let knobs = " f="@ + decimal_text(b.freq_hz.thousandths as int) + " w="@
                    + decimal_text(b.width_hz.thousandths as int) + " g="@ + decimal_text(
                    b.gain_db.thousandths as int,
                );
                "c0"@ + knobs + "|c1"@ + knobs
            }),
        points.len() == profile.compand.points@.len(),
        forall|i: int|
            0 <= i < points.len() ==> #[trigger] points[i] == ({
                let p = profile.compand.points@[i];
                decimal_text(p.0.thousandths as int) + "/"@ + decimal_text(p.1.thousandths as int)
            }),
    ensures
        bands.len() > 0 ==> profile.bands_stage() == Some("anequalizer="@ + text::joined(bands, "|"@)),
        profile.compand_stage() == "compand=attacks="@ + decimal_text(
            profile.compand.attack_s.thousandths as int,
        ) + ":decays="@ + decimal_text(profile.compand.decay_s.thousandths as int) + ":points="@
            + text::joined(points, "|"@),
{
    assert(profile.bands@.map_values(|b: EqBand| b.filter()) =~= bands);
    assert(profile.compand.points@.map_values(|p: (Decimal, Decimal)| p.0@ + "/"@ + p.1@)
        =~= points);
}

/// The chain is the fixed stages around the optional ones that are set, in
/// signal-flow order: bands, lowpass, sub-bass, stereo width, echo.
pub proof fn law_optional_stages_keep_their_order(profile: EqProfile)
    ensures
        ({
            let stages = profile.stages();
            let after_bands = 2 + stage_count(profile.bands_stage());
            let after_lowpass = after_bands + stage_count(profile.lowpass_stage());
            let after_boost = after_lowpass + stage_count(profile.sub_boost_stage());
            let after_stereo = after_boost + stage_count(profile.stereo_stage());
            &&& profile.sub_boost_stage() matches Some(s) ==> stages[after_lowpass] == s
            &&& profile.stereo_stage() matches Some(s) ==> stages[after_boost] == s
            &&& profile.echo_stage() matches Some(s) ==> stages[after_stereo] == s
        }),
        forall|part: Seq<char>| stage_count(Some(part)) == 1,
        stage_count(None) == 0,
{
}

/// The built-in profiles' filtergraphs are those of their knobs.
pub proof fn law_built_in_filters_are_their_profiles(profile: EqProfile)
    requires
        profile.pre_gain_db.thousandths == -6_000,
        profile.sub_boost is None,
        profile.stereo_width is None,
        profile.echo is None,
        profile.compand.attack_s.thousandths == 20,
        profile.compand.decay_s.thousandths == 100,
        profile.compand.points@ == seq![
            (Decimal { thousandths: (-80_000) as i64 }, Decimal { thousandths: (-80_000) as i64 }),
            (Decimal { thousandths: (-35_000) as i64 }, Decimal { thousandths: (-35_000) as i64 }),
            (Decimal { thousandths: 0 }, Decimal { thousandths: (-5_000) as i64 }),
        ],
        profile.loudnorm.integrated_lufs.thousandths == -16_000,
    ensures
        profile.resample_precision == 24 && profile.lowpass_hz is None
            && profile.loudnorm.range_lu.thousandths == 10_000
            && profile.loudnorm.true_peak_dbtp.thousandths == -2_000 && profile.bands@ == seq![
            EqBand {
                freq_hz: Decimal { thousandths: 60_000 },
                width_hz: Decimal { thousandths: 15_000 },
                gain_db: Decimal { thousandths: 1_500 },
            },
        ] ==> balanced_filter() == text::joined(profile.stages(), ","@),
        profile.resample_precision == 33 && profile.lowpass_hz == Some(
            Decimal { thousandths: 16_000_000 },
        ) && profile.loudnorm.range_lu.thousandths == 11_000
            && profile.loudnorm.true_peak_dbtp.thousandths == -1_500 && profile.bands@
            == hifi_bands() ==> hifi_filter() == text::joined(profile.stages(), ","@),
{
    assert(profile.compand.points@ =~= gentle_points());
    if profile.bands@ == hifi_bands() && profile.lowpass_hz is Some {
        assert(profile.stages() =~= seq![
            profile.volume_stage(),
            profile.resample_stage(),
            profile.bands_stage()->0,
            profile.lowpass_stage()->0,
            profile.compand_stage(),
            profile.loudnorm_stage(),
        ]);
    }
    if profile.bands@.len() == 1 && profile.lowpass_hz is None {
        assert(profile.bands@.map_values(|b: EqBand| b.filter()) =~= seq![
            profile.bands@[0].filter(),
        ]);
        assert(profile.stages() =~= seq![
            profile.volume_stage(),
            profile.resample_stage(),
            profile.bands_stage()->0,
            profile.compand_stage(),
            profile.loudnorm_stage(),
        ]);
    }
}

/// Hi-Fi shapes six bands, by rising frequency: a lift at both ends of the
/// range and a slight dip in the middle.
pub proof fn law_hifi_bands()
    ensures
        hifi_bands().len() == 6,
        hifi_bands()[0].freq_hz.thousandths == 60_000,
        hifi_bands()[0].width_hz.thousandths == 40_000,
        hifi_bands()[0].gain_db.thousandths == 1_500,
        hifi_bands()[1].freq_hz.thousandths == 250_000,
        hifi_bands()[1].width_hz.thousandths == 150_000,
        hifi_bands()[1].gain_db.thousandths == -1_000,
        hifi_bands()[2].freq_hz.thousandths == 1_000_000,
        hifi_bands()[2].width_hz.thousandths == 500_000,
        hifi_bands()[2].gain_db.thousandths == 0,
        hifi_bands()[3].freq_hz.thousandths == 3_000_000,
        hifi_bands()[3].width_hz.thousandths == 1_000_000,
        hifi_bands()[3].gain_db.thousandths == -500,
        hifi_bands()[4].freq_hz.thousandths == 8_000_000,
        hifi_bands()[4].width_hz.thousandths == 2_000_000,
        hifi_bands()[4].gain_db.thousandths == 1_500,
        hifi_bands()[5].freq_hz.thousandths == 14_000_000,
        hifi_bands()[5].width_hz.thousandths == 3_000_000,
        hifi_bands()[5].gain_db.thousandths == 1_000,
{
}

} // verus!
