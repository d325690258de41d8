//! The Now Playing panel's rendering.

use vstd::arithmetic::div_mod::*;
use vstd::prelude::*;

use crate::discord;
use crate::discord::{
    ActionRow, ActionRowView, Button, ButtonStyle, ButtonView, Colour, Embed, EmbedField,
    EmbedFieldView, EmbedView,
};
use crate::double;
use crate::double::filled_cells;
use crate::player::custom_id;
use crate::player::state::{LoopMode, TrackMeta};
use crate::text;
use crate::text::{int_string, nat_string, padded_string, repeat};
use crate::time::{Duration, MAX_NANOS, NANOS_PER_SEC};

verus! {

/// Width (in characters) of the text progress bar on the panel.
pub const PROGRESS_BAR_LENGTH: usize = 20;

/// How far the panel's ⏪/⏩ buttons seek per press, in seconds.
pub const PANEL_SEEK_STEP_SECS: i64 = 10;

/// How many characters of the progress bar are filled: the part of `total`
/// that lies behind `position`, at most all of it, reckoned in doubles and
/// rounded down. An empty `total` fills none.
pub open spec fn filled(position: nat, total: nat) -> nat {
    if total == 0 {
        0
    } else {
        double::cells(position, total, PROGRESS_BAR_LENGTH as nat)
    }
}

/// The progress bar for `position` out of `total`.
pub open spec fn bar_text(position: nat, total: nat) -> Seq<char> {
    text::repeated("█"@, filled(position, total)) + text::repeated(
        "─"@,
        (PROGRESS_BAR_LENGTH - filled(position, total)) as nat,
    )
}

/// A span as minutes and seconds.
pub open spec fn clock_text(span: nat) -> Seq<char> {
    let secs = span / NANOS_PER_SEC as nat;
    text::two_digits(secs / 60) + ":"@ + text::two_digits(secs % 60)
}

/// Renders a `████────` -style text progress bar for `position` out of
/// `total`. An empty `total` renders an empty bar.
pub fn progress_bar(position: Duration, total: Duration) -> (bar: String)
    ensures
        bar@ == bar_text(position@, total@),
{
    let full: usize = if total.as_nanos() == 0 {
        0
    } else {
        filled_cells(position, total, PROGRESS_BAR_LENGTH)
    };
    let mut bar = repeat("█", full);
    bar.append(repeat("─", PROGRESS_BAR_LENGTH - full).as_str());
    bar
}

/// Renders a span as minutes and seconds, `mm:ss`.
pub fn format_duration(d: Duration) -> (clock: String)
    ensures
        clock@ == clock_text(d@),
{
    let total: u64 = d.as_secs();
    let mut clock = padded_string(total / 60);
    clock.append(":");
    clock.append(padded_string(total % 60).as_str());
    clock
}

/// The progress bar is always exactly `PROGRESS_BAR_LENGTH` characters wide,
/// whatever the position.
pub proof fn law_progress_bar_has_constant_width(position: nat, total: nat)
    ensures
        bar_text(position, total).len() == PROGRESS_BAR_LENGTH,
{
    law_progress_bar_advances(position, position, total);
    reveal_strlit("█");
    reveal_strlit("─");
    lemma_repeated_len("█"@, filled(position, total));
    lemma_repeated_len("─"@, (PROGRESS_BAR_LENGTH - filled(position, total)) as nat);
}

/// The progress bar never runs backwards as the position advances.
pub proof fn law_progress_bar_advances(earlier: nat, later: nat, total: nat)
    requires
        earlier <= later,
    ensures
        filled(earlier, total) <= filled(later, total) <= PROGRESS_BAR_LENGTH,
{
    if 0 < total {
        double::lemma_cells_ordered(earlier, later, total, PROGRESS_BAR_LENGTH as nat);
    }
}

/// The bar is empty at the start of the track.
pub proof fn law_progress_bar_is_empty_at_the_start(total: nat)
    ensures
        filled(0, total) == 0,
{
    if 0 < total {
        double::lemma_cells_at_start(total, PROGRESS_BAR_LENGTH as nat);
    }
}

/// The bar of a track of whole seconds is half full halfway through.
pub proof fn law_progress_bar_is_half_full_halfway(secs: nat)
    requires
        0 < secs <= double::HALF,
    ensures
        2 * filled(secs * NANOS_PER_SEC as nat, (2 * secs) * NANOS_PER_SEC as nat)
            == PROGRESS_BAR_LENGTH,
{
    double::lemma_cells_halfway(secs, 10);
}

/// Within four million seconds, the bar shows what it exactly would for a
/// position that is at most seven nanoseconds away.
pub proof fn law_progress_bar_is_accurate(position: nat, total: nat)
    requires
        position < total <= double::PRECISE_NANOS,
    ensures
        position >= 7 ==> PROGRESS_BAR_LENGTH as nat * (position - 7) as nat / total <= filled(
            position,
            total,
        ),
        filled(position, total) <= PROGRESS_BAR_LENGTH as nat * (position + 7) / total,
{
    let width = PROGRESS_BAR_LENGTH as nat;
    if position >= 7 {
        let exact = 20 * (position - 7);
        lemma_fundamental_div_mod(exact, total as int);
        let n = (exact / total as int) as nat;
        assert(n * total == total * n) by (nonlinear_arith);
        double::lemma_cells_accurate(position, total, width, n);
    }
    let exact = 20 * (position + 7);
    lemma_fundamental_div_mod(exact as int, total as int);
    let n = exact / total + 1;
    assert(n * total == total * (exact / total) + total) by (nonlinear_arith)
        requires
            n == exact / total + 1,
    ;
    double::lemma_cells_accurate(position, total, width, n);
}

/// The end of the track fills the bar, and so does anything beyond it.
pub proof fn law_progress_bar_is_full_at_the_end(position: nat, total: nat)
    requires
        0 < total <= position,
    ensures
        filled(position, total) == PROGRESS_BAR_LENGTH,
{
    double::lemma_cells_at_end(position, total, PROGRESS_BAR_LENGTH as nat);
}

proof fn lemma_repeated_len(unit: Seq<char>, n: nat)
    requires
        unit.len() == 1,
    ensures
        text::repeated(unit, n).len() == n,
    decreases n,
{
    if n > 0 {
        lemma_repeated_len(unit, (n - 1) as nat);
    }
}

/// What the audio driver reports of the track that is playing: the position
/// of its input, and its volume in percent.
#[derive(Clone, Copy, Debug, PartialEq, Eq)]
pub struct TrackStatus {
    pub paused: bool,
    pub position: Duration,
    pub volume_pct: i64,
}

/// Whether the driver reports a pause.
pub open spec fn is_paused(status: Option<TrackStatus>) -> bool {
    status matches Some(s) && s.paused
}

/// The real position in a track: how far its input has played, plus the
/// offset at which that started.
pub open spec fn real_position(meta: TrackMeta, status: Option<TrackStatus>) -> nat {
    meta.start_offset@ + match status {
        Some(s) => s.position@,
        None => 0,
    }
}

/// The panel's description.
pub open spec fn panel_description(meta: TrackMeta, paused: bool) -> Seq<char> {
    let uploader = match meta.uploader {
        Some(name) => name@,
        None => "Unknown Artist"@,
    };
    let status_icon = if paused {
        "⏸️ Paused"@
    } else {
        "▶️ Playing"@
    };
    "**By:** "@ + uploader + "\n\u{200b}\n"@ + status_icon + ":\n**"@ + meta.title@
        + "**\n[[Link to YouTube]]("@ + meta.url@ + ")"@
}

/// The panel's progress line.
pub open spec fn panel_progress(position: nat, total: nat) -> Seq<char> {
    "\u{200b}\n`"@ + clock_text(position) + "`\u{200b}`   "@ + bar_text(position, total)
        + "   `\u{200b}`"@ + clock_text(total) + "`"@
}

/// The panel's footer.
pub open spec fn panel_footer(
    meta: TrackMeta,
    volume_pct: int,
    loop_mode: LoopMode,
    queue_position: nat,
    queue_total: nat,
) -> Seq<char> {
    let head = "Requested by: "@ + meta.requester_name@ + " | 🎶 Queue: "@ + text::nat_text(
        queue_position,
    ) + "/"@ + text::nat_text(queue_total) + " | 🔊 Volume: "@ + text::int_text(volume_pct) + "%"@;
    let looped = match loop_mode {
        LoopMode::Off => head,
        LoopMode::Track => head + " | 🔁 Loop: Track"@,
        LoopMode::Queue => head + " | 🔁 Loop: Queue"@,
    };
    if meta.eq_filter is Some {
        looped + " | 🎧 Hi-Fi"@
    } else {
        looped
    }
}

/// The panel's fields: the progress line, and what plays next if anything
/// does.
pub open spec fn panel_fields(progress: Seq<char>, next_title: Option<Seq<char>>) -> Seq<
    EmbedFieldView,
> {
    let first = EmbedFieldView { name: ""@, value: progress, inline: false };
    match next_title {
        Some(title) => seq![
            first,
            EmbedFieldView { name: "⏭️ Up Next"@, value: title, inline: false },
        ],
        None => seq![first],
    }
}

/// The length of a track, nothing where it is unknown.
pub open spec fn total_length(meta: TrackMeta) -> nat {
    match meta.duration {
        Some(d) => d@,
        None => 0,
    }
}

/// The Now Playing panel's embed.
pub open spec fn playing_view(
    meta: TrackMeta,
    status: Option<TrackStatus>,
    loop_mode: LoopMode,
    next_title: Option<Seq<char>>,
    queue_position: nat,
    queue_total: nat,
) -> EmbedView {
    let volume_pct = match status {
        Some(s) => s.volume_pct as int,
        None => 100,
    };
    EmbedView {
        title: "Now playing music:"@,
        description: panel_description(meta, is_paused(status)),
        fields: panel_fields(
            panel_progress(real_position(meta, status), total_length(meta)),
            next_title,
        ),
        footer: Some(panel_footer(meta, volume_pct, loop_mode, queue_position, queue_total)),
        colour: Colour::Rgb(0x57_F287),
        thumbnail: text::opt_text(meta.thumbnail),
    }
}

fn description_text(meta: &TrackMeta, paused: bool) -> (description: String)
    ensures
        description@ == panel_description(*meta, paused),
{
    let mut description = "**By:** ".to_owned();
    match &meta.uploader {
        Some(uploader) => {
            description.append(uploader.as_str());
        },
        None => {
            description.append("Unknown Artist");
        },
    }
    // A zero-width space holds open a blank line Discord would otherwise
    // collapse.
    description.append("\n\u{200b}\n");
    if paused {
        description.append("⏸️ Paused");
    } else {
        description.append("▶️ Playing");
    }
    description.append(":\n**");
    description.append(meta.title.as_str());
    description.append("**\n[[Link to YouTube]](");
    description.append(meta.url.as_str());
    description.append(")");
    description
}

fn progress_text(position: Duration, total: Duration) -> (progress: String)
    ensures
        progress@ == panel_progress(position@, total@),
{
    let mut progress = "\u{200b}\n`".to_owned();
    progress.append(format_duration(position).as_str());
    progress.append("`\u{200b}`   ");
    progress.append(progress_bar(position, total).as_str());
    progress.append("   `\u{200b}`");
    progress.append(format_duration(total).as_str());
    progress.append("`");
    progress
}

fn footer_text(
    meta: &TrackMeta,
    volume_pct: i64,
    loop_mode: LoopMode,
    queue_position: usize,
    queue_total: usize,
) -> (footer: String)
    ensures
        footer@ == panel_footer(
            *meta,
            volume_pct as int,
            loop_mode,
            queue_position as nat,
            queue_total as nat,
        ),
{
    let mut footer = "Requested by: ".to_owned();
    footer.append(meta.requester_name.as_str());
    footer.append(" | 🎶 Queue: ");
    footer.append(nat_string(queue_position as u64).as_str());
    footer.append("/");
    footer.append(nat_string(queue_total as u64).as_str());
    footer.append(" | 🔊 Volume: ");
    footer.append(int_string(volume_pct).as_str());
    footer.append("%");
    match loop_mode {
        LoopMode::Off => {},
        LoopMode::Track => {
            footer.append(" | 🔁 Loop: Track");
        },
        LoopMode::Queue => {
            footer.append(" | 🔁 Loop: Queue");
        },
    }
    if meta.eq_filter.is_some() {
        footer.append(" | 🎧 Hi-Fi");
    }
    footer
}

/// Builds the Now Playing panel's embed. The real position has to be within
/// range.
pub fn now_playing_embed(
    meta: &TrackMeta,
    status: Option<TrackStatus>,
    loop_mode: LoopMode,
    next_title: Option<&str>,
    queue_position: usize,
    queue_total: usize,
) -> (embed: Embed)
    requires
        real_position(*meta, status) <= MAX_NANOS,
    ensures
        embed@ == playing_view(
            *meta,
            status,
            loop_mode,
            match next_title {
                Some(title) => Some(title@),
                None => None,
            },
            queue_position as nat,
            queue_total as nat,
        ),
{
    let (paused, played, volume_pct): (bool, Duration, i64) = match status {
        Some(s) => (s.paused, s.position, s.volume_pct),
        None => (false, Duration::zero(), 100),
    };
    let position = played.plus(meta.start_offset);
    let total = match meta.duration {
        Some(d) => d,
        None => Duration::zero(),
    };
    let mut fields: Vec<EmbedField> = Vec::new();
    fields.push(
        EmbedField { name: "".to_owned(), value: progress_text(position, total), inline: false },
    );
    if let Some(title) = next_title {
        fields.push(
            EmbedField { name: "⏭️ Up Next".to_owned(), value: title.to_owned(), inline: false },
        );
    }
    assert(fields@.map_values(|f: EmbedField| f@) =~= panel_fields(
        panel_progress(real_position(*meta, status), total_length(*meta)),
        match next_title {
            Some(title) => Some(title@),
            None => None,
        },
    ));
    Embed {
        title: "Now playing music:".to_owned(),
        description: description_text(meta, paused),
        fields,
        footer: Some(footer_text(meta, volume_pct, loop_mode, queue_position, queue_total)),
        colour: Colour::Rgb(0x57_F287),
        thumbnail: meta.thumbnail.clone(),
    }
}

/// An embed of a title and a line of text, in grey.
pub open spec fn notice_view(title: Seq<char>, description: Seq<char>) -> EmbedView {
    EmbedView {
        title,
        description,
        fields: Seq::empty(),
        footer: None,
        colour: Colour::DarkGrey,
        thumbnail: None,
    }
}

fn notice_embed(title: &str, description: &str) -> (embed: Embed)
    ensures
        embed@ == notice_view(title@, description@),
{
    let fields: Vec<EmbedField> = Vec::new();
    assert(fields@.map_values(|f: EmbedField| f@) =~= Seq::<EmbedFieldView>::empty());
    Embed {
        title: title.to_owned(),
        description: description.to_owned(),
        fields,
        footer: None,
        colour: Colour::DarkGrey,
        thumbnail: None,
    }
}

/// The panel once the queue has run empty.
pub fn finished_embed() -> (embed: Embed)
    ensures
        embed@ == notice_view("⏹️ Playback Finished"@, "Thanks for listening!"@),
{
    notice_embed("⏹️ Playback Finished", "Thanks for listening!")
}

/// The panel once the bot has left.
pub fn goodbye_embed() -> (embed: Embed)
    ensures
        embed@ == notice_view("👋 See you!"@, "Thanks for using the bot."@),
{
    notice_embed("👋 See you!", "Thanks for using the bot.")
}

/// The seek buttons' caption.
pub open spec fn seek_label() -> Seq<char> {
    text::nat_text(PANEL_SEEK_STEP_SECS as nat) + "s"@
}

/// The row of transport buttons: rewind, pause/resume, fast-forward.
pub open spec fn transport_row(paused: bool, disabled: bool) -> ActionRowView {
    ActionRowView::Buttons(
        seq![
            ButtonView {
                custom_id: custom_id::SEEK_BACK@,
                label: Some(seek_label()),
                emoji: Some('⏪'),
                style: ButtonStyle::Secondary,
                disabled,
            },
            ButtonView {
                custom_id: custom_id::PAUSE_RESUME@,
                label: None,
                emoji: Some(
                    if paused {
                        '▶'
                    } else {
                        '⏸'
                    },
                ),
                style: ButtonStyle::Primary,
                disabled,
            },
            ButtonView {
                custom_id: custom_id::SEEK_FORWARD@,
                label: Some(seek_label()),
                emoji: Some('⏩'),
                style: ButtonStyle::Secondary,
                disabled,
            },
        ],
    )
}

/// The row of queue buttons: loop, skip, shuffle.
pub open spec fn queue_row(loop_mode: LoopMode, disabled: bool) -> ActionRowView {
    ActionRowView::Buttons(
        seq![
            ButtonView {
                custom_id: custom_id::LOOP@,
                label: Some(loop_mode.caption()),
                emoji: Some('🔁'),
                style: if disabled || loop_mode == LoopMode::Off {
                    ButtonStyle::Secondary
                } else {
                    ButtonStyle::Success
                },
                disabled,
            },
            ButtonView {
                custom_id: custom_id::SKIP@,
                label: None,
                emoji: Some('⏭'),
                style: ButtonStyle::Secondary,
                disabled,
            },
            ButtonView {
                custom_id: custom_id::SHUFFLE@,
                label: None,
                emoji: Some('🔀'),
                style: ButtonStyle::Secondary,
                disabled,
            },
        ],
    )
}

fn transport_buttons(paused: bool, disabled: bool) -> (row: ActionRow)
    ensures
        row@ == transport_row(paused, disabled),
{
    let mut label = nat_string(PANEL_SEEK_STEP_SECS as u64);
    label.append("s");
    let mut buttons: Vec<Button> = Vec::new();
    buttons.push(
        Button {
            custom_id: custom_id::SEEK_BACK.to_owned(),
            label: Some(label.clone()),
            emoji: Some('⏪'),
            style: ButtonStyle::Secondary,
            disabled,
        },
    );
    buttons.push(
        Button {
            custom_id: custom_id::PAUSE_RESUME.to_owned(),
            label: None,
            emoji: Some(
                if paused {
                    '▶'
                } else {
                    '⏸'
                },
            ),
            style: ButtonStyle::Primary,
            disabled,
        },
    );
    buttons.push(
        Button {
            custom_id: custom_id::SEEK_FORWARD.to_owned(),
            label: Some(label),
            emoji: Some('⏩'),
            style: ButtonStyle::Secondary,
            disabled,
        },
    );
    assert(buttons@.map_values(|b: Button| b@) =~= transport_row(paused, disabled)->Buttons_0);
    ActionRow::Buttons(buttons)
}

fn queue_buttons(loop_mode: LoopMode, disabled: bool) -> (row: ActionRow)
    ensures
        row@ == queue_row(loop_mode, disabled),
{
    let mut buttons: Vec<Button> = Vec::new();
    buttons.push(
        Button {
            custom_id: custom_id::LOOP.to_owned(),
            label: Some(loop_mode.label().to_owned()),
            emoji: Some('🔁'),
            style: if disabled || loop_mode == LoopMode::Off {
                ButtonStyle::Secondary
            } else {
                ButtonStyle::Success
            },
            disabled,
        },
    );
    buttons.push(
        Button {
            custom_id: custom_id::SKIP.to_owned(),
            label: None,
            emoji: Some('⏭'),
            style: ButtonStyle::Secondary,
            disabled,
        },
    );
    buttons.push(
        Button {
            custom_id: custom_id::SHUFFLE.to_owned(),
            label: None,
            emoji: Some('🔀'),
            style: ButtonStyle::Secondary,
            disabled,
        },
    );
    assert(buttons@.map_values(|b: Button| b@) =~= queue_row(loop_mode, disabled)->Buttons_0);
    ActionRow::Buttons(buttons)
}

/// Panel button layout: row 1 is the transport trio (rewind / pause-resume /
/// fast-forward), row 2 is queue management (loop / skip / shuffle).
pub fn control_panel_components(status: Option<TrackStatus>, loop_mode: LoopMode) -> (rows: Vec<
    ActionRow,
>)
    ensures
        discord::rows(rows@) == seq![
            transport_row(is_paused(status), false),
            queue_row(loop_mode, false),
        ],
{
    let paused = match status {
        Some(s) => s.paused,
        None => false,
    };
    let mut rows: Vec<ActionRow> = Vec::new();
    rows.push(transport_buttons(paused, false));
    rows.push(queue_buttons(loop_mode, false));
    assert(discord::rows(rows@) =~= seq![
        transport_row(is_paused(status), false),
        queue_row(loop_mode, false),
    ]);
    rows
}

/// The panel's buttons once there is nothing left to control.
pub fn disabled_control_panel_components(loop_mode: LoopMode) -> (rows: Vec<ActionRow>)
    ensures
        discord::rows(rows@) == seq![transport_row(false, true), queue_row(loop_mode, true)],
{
    let mut rows: Vec<ActionRow> = Vec::new();
    rows.push(transport_buttons(false, true));
    rows.push(queue_buttons(loop_mode, true));
    assert(discord::rows(rows@) =~= seq![transport_row(false, true), queue_row(loop_mode, true)]);
    rows
}

/// A seek shows up on the panel at once: the replacement's input starts from
/// nothing, and its offset makes up for that. However far it has played
/// since, the panel is that much past the target.
pub proof fn law_position_continues_after_seek(
    meta: TrackMeta,
    replacement: TrackMeta,
    target: Duration,
    status: TrackStatus,
)
    requires
        replacement.is_seek_of(meta, target),
    ensures
        real_position(replacement, Some(status)) == target@ + status.position@,
        real_position(replacement, None) == target@,
        total_length(replacement) == total_length(meta),
{
}

/// For a track that was never seeked the real position is what the driver
/// reports.
pub proof fn law_position_of_fresh_track(meta: TrackMeta, copy: TrackMeta, status: TrackStatus)
    requires
        copy.is_fresh_copy(meta) || copy.is_clone_of(meta),
    ensures
        real_position(copy, Some(status)) == status.position@,
{
}

/// A clock shows whole minutes and the seconds beyond them, two digits each
/// at least, and reads back as the whole seconds of its span.
pub proof fn law_clock_reads_back(span: nat)
    ensures
        ({
            let clock = clock_text(span);
            let colon = clock.len() - 3;
            &&& colon >= 2
            &&& clock[colon] == ':'
            &&& text::digits_value(clock.take(colon)) * 60 + text::digits_value(
                clock.skip(colon + 1),
            ) == span / 1_000_000_000
            &&& text::digits_value(clock.skip(colon + 1)) < 60
            &&& forall|i: int|
                0 <= i < clock.len() && i != colon ==> '0' <= #[trigger] clock[i] <= '9'
        }),
{
    let secs = span / NANOS_PER_SEC as nat;
    let clock = clock_text(span);
    let m = text::two_digits(secs / 60);
    let s = text::two_digits(secs % 60);
    text::law_two_digits_read_back(secs / 60);
    text::law_two_digits_read_back(secs % 60);
    reveal_strlit(":");
    let colon = clock.len() - 3;
    assert(clock.take(colon) =~= m);
    assert(clock.skip(colon + 1) =~= s);
    assert forall|i: int| 0 <= i < clock.len() && i != colon implies '0' <= #[trigger] clock[i]
        <= '9' by {
        if i < colon {
            assert(clock[i] == m[i]);
        } else {
            assert(clock[i] == s[i - colon - 1]);
        }
    }
}

/// A bar is filled from its beginning on, up to the cells that are behind
/// the position.
pub proof fn law_bar_fills_from_the_left(position: nat, total: nat, i: int)
    requires
        0 <= i < 20,
    ensures
        bar_text(position, total).len() == 20,
        i < filled(position, total) ==> bar_text(position, total)[i] == '█',
        i >= filled(position, total) ==> bar_text(position, total)[i] == '─',
{
    law_progress_bar_advances(position, position, total);
    reveal_strlit("█");
    reveal_strlit("─");
    let n = filled(position, total);
    lemma_repeated_chars("█"@, n);
    lemma_repeated_chars("─"@, (20 - n) as nat);
}

proof fn lemma_repeated_chars(unit: Seq<char>, n: nat)
    requires
        unit.len() == 1,
    ensures
        text::repeated(unit, n).len() == n,
        forall|i: int| 0 <= i < n ==> #[trigger] text::repeated(unit, n)[i] == unit[0],
    decreases n,
{
    if n > 0 {
        lemma_repeated_chars(unit, (n - 1) as nat);
    }
}

/// What the panel says of a track is what the driver reports: paused or
/// playing, the position beyond the track's own start, and the volume. The
/// rest comes from the track, the queue and the loop mode.
pub proof fn law_panel_says_what_is_reported(
    meta: TrackMeta,
    status: TrackStatus,
    loop_mode: LoopMode,
    next_title: Option<Seq<char>>,
    queue_position: nat,
    queue_total: nat,
)
    ensures
        ({
            let embed = playing_view(
                meta,
                Some(status),
                loop_mode,
                next_title,
                queue_position,
                queue_total,
            );
            let position = meta.start_offset@ + status.position@;
            let total = match meta.duration {
                Some(d) => d@,
                None => 0,
            };
            &&& embed.title == "Now playing music:"@
            &&& embed.description == "**By:** "@ + (match meta.uploader {
                Some(name) => name@,
                None => "Unknown Artist"@,
            }) + "\n\u{200b}\n"@ + (if status.paused {
                "⏸️ Paused"@
            } else {
                "▶️ Playing"@
            }) + ":\n**"@ + meta.title@ + "**\n[[Link to YouTube]]("@ + meta.url@ + ")"@
            &&& embed.fields.len() == (if next_title is Some {
                2int
            } else {
                1
            })
            &&& embed.fields[0].name == ""@
            &&& embed.fields[0].value == "\u{200b}\n`"@ + clock_text(position)
                + "`\u{200b}`   "@ + bar_text(position, total) + "   `\u{200b}`"@ + clock_text(
                total,
            ) + "`"@
            &&& !embed.fields[0].inline
            &&& next_title matches Some(title) ==> {
                &&& embed.fields[1].name == "⏭️ Up Next"@
                &&& embed.fields[1].value == title
                &&& !embed.fields[1].inline
            }
            &&& embed.footer == Some(
                "Requested by: "@ + meta.requester_name@ + " | 🎶 Queue: "@ + text::nat_text(
                    queue_position,
                ) + "/"@ + text::nat_text(queue_total) + " | 🔊 Volume: "@ + text::int_text(
                    status.volume_pct as int,
                ) + "%"@ + (match loop_mode {
                    LoopMode::Off => ""@,
                    LoopMode::Track => " | 🔁 Loop: Track"@,
                    LoopMode::Queue => " | 🔁 Loop: Queue"@,
                }) + (match meta.eq_filter {
                    Some(_) => " | 🎧 Hi-Fi"@,
                    None => ""@,
                }),
            )
            &&& embed.colour == Colour::Rgb(0x57_F287)
            &&& embed.thumbnail is Some == meta.thumbnail is Some
            &&& meta.thumbnail matches Some(t) ==> embed.thumbnail == Some(t@)
        }),
{
    reveal_strlit("");
    let head = "Requested by: "@ + meta.requester_name@ + " | 🎶 Queue: "@ + text::nat_text(
        queue_position,
    ) + "/"@ + text::nat_text(queue_total) + " | 🔊 Volume: "@ + text::int_text(
        status.volume_pct as int,
    ) + "%"@;
    assert(""@ =~= Seq::<char>::empty());
    assert(head + ""@ =~= head);
    let looped = head + " | 🔁 Loop: Track"@;
    assert(looped + ""@ =~= looped);
    let looped = head + " | 🔁 Loop: Queue"@;
    assert(looped + ""@ =~= looped);
}

/// Where the driver reports nothing, the panel shows the track as playing
/// from its start at full volume, exactly as if that had been reported.
pub proof fn law_panel_without_a_report(
    meta: TrackMeta,
    status: TrackStatus,
    loop_mode: LoopMode,
    next_title: Option<Seq<char>>,
    queue_position: nat,
    queue_total: nat,
)
    requires
        !status.paused,
        status.position@ == 0,
        status.volume_pct == 100,
    ensures
        playing_view(meta, None, loop_mode, next_title, queue_position, queue_total)
            == playing_view(
            meta,
            Some(status),
            loop_mode,
            next_title,
            queue_position,
            queue_total,
        ),
        is_paused(Some(status)) == status.paused,
        !is_paused(None),
        real_position(meta, Some(status)) == meta.start_offset@ + status.position@,
        real_position(meta, None) == meta.start_offset@,
{
}

/// A notice is its title and its text, and nothing else.
pub proof fn law_notice_is_its_words(title: Seq<char>, description: Seq<char>)
    ensures
        notice_view(title, description).title == title,
        notice_view(title, description).description == description,
        notice_view(title, description).fields.len() == 0,
        notice_view(title, description).footer is None,
        notice_view(title, description).thumbnail is None,
        notice_view(title, description).colour == Colour::DarkGrey,
{
}

/// The transport row rewinds, pauses or resumes, and winds on, in this
/// order; a paused track offers to play, any other to pause.
pub proof fn law_transport_row(paused: bool, disabled: bool)
    ensures
        ({
            let buttons = transport_row(paused, disabled)->Buttons_0;
            let label = text::nat_text(10) + "s"@;
            &&& transport_row(paused, disabled) is Buttons
            &&& buttons.len() == 3
            &&& buttons[0].custom_id == "np:seek_back"@
            &&& buttons[0].label == Some(label)
            &&& buttons[0].emoji == Some('⏪')
            &&& buttons[0].style == ButtonStyle::Secondary
            &&& buttons[1].custom_id == "np:pause_resume"@
            &&& buttons[1].label is None
            &&& paused ==> buttons[1].emoji == Some('▶')
            &&& !paused ==> buttons[1].emoji == Some('⏸')
            &&& buttons[1].style == ButtonStyle::Primary
            &&& buttons[2].custom_id == "np:seek_forward"@
            &&& buttons[2].label == Some(label)
            &&& buttons[2].emoji == Some('⏩')
            &&& buttons[2].style == ButtonStyle::Secondary
            &&& forall|i: int| 0 <= i < 3 ==> (#[trigger] buttons[i]).disabled == disabled
        }),
{
}

/// The queue row loops, skips and shuffles, in this order; the loop button
/// names the mode and stands out while looping is on.
pub proof fn law_queue_row(loop_mode: LoopMode, disabled: bool)
    ensures
        ({
            let buttons = queue_row(loop_mode, disabled)->Buttons_0;
            &&& queue_row(loop_mode, disabled) is Buttons
            &&& buttons.len() == 3
            &&& buttons[0].custom_id == "np:loop"@
            &&& loop_mode == LoopMode::Off ==> buttons[0].label == Some("Loop: Off"@)
            &&& loop_mode == LoopMode::Track ==> buttons[0].label == Some("Loop: Track"@)
            &&& loop_mode == LoopMode::Queue ==> buttons[0].label == Some("Loop: Queue"@)
            &&& buttons[0].emoji == Some('🔁')
            &&& buttons[0].style == ButtonStyle::Success <==> loop_mode != LoopMode::Off
                && !disabled
            &&& buttons[0].style == ButtonStyle::Secondary <==> loop_mode == LoopMode::Off
                || disabled
            &&& buttons[1].custom_id == "np:skip"@
            &&& buttons[1].label is None
            &&& buttons[1].emoji == Some('⏭')
            &&& buttons[1].style == ButtonStyle::Secondary
            &&& buttons[2].custom_id == "np:shuffle"@
            &&& buttons[2].label is None
            &&& buttons[2].emoji == Some('🔀')
            &&& buttons[2].style == ButtonStyle::Secondary
            &&& forall|i: int| 0 <= i < 3 ==> (#[trigger] buttons[i]).disabled == disabled
        }),
{
}

/// A track of unknown length has an empty bar throughout.
pub proof fn law_bar_of_unknown_length_is_empty(position: nat, i: int)
    requires
        0 <= i < 20,
    ensures
        bar_text(position, 0)[i] == '─',
{
    law_bar_fills_from_the_left(position, 0, i);
}

} // verus!
