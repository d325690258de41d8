//! `/profile`: a user's saved volume and EQ mode.

use vstd::prelude::*;

use crate::discord::{Colour, Embed, EmbedField, EmbedFieldView, EmbedView, Reply};
use crate::models::UserProfile;
use crate::text;
use crate::text::{between, int_string, same_text};

verus! {

/// Sound quality mode.
#[derive(Clone, Copy, Debug, PartialEq, Eq, Structural)]
pub enum EqMode {
    Balanced,
    Hifi,
}

impl EqMode {
    /// The mode's name in the database.
    pub open spec fn name(self) -> Seq<char> {
        match self {
            EqMode::Balanced => "balanced"@,
            EqMode::Hifi => "hifi"@,
        }
    }

    /// The mode's caption.
    pub open spec fn caption(self) -> Seq<char> {
        match self {
            EqMode::Balanced => "🎵 Balanced"@,
            EqMode::Hifi => "🎧 High quality (Hi-Fi)"@,
        }
    }

    /// The mode's name in the database.
    pub fn as_str(self) -> (name: &'static str)
        ensures
            name@ == self.name(),
    {
        match self {
            EqMode::Balanced => "balanced",
            EqMode::Hifi => "hifi",
        }
    }

    /// The mode's caption.
    pub fn label(self) -> (caption: &'static str)
        ensures
            caption@ == self.caption(),
    {
        match self {
            EqMode::Balanced => "🎵 Balanced",
            EqMode::Hifi => "🎧 High quality (Hi-Fi)",
        }
    }
}

/// The embed that shows a profile.
pub open spec fn profile_embed(user_name: Seq<char>, profile: UserProfile) -> EmbedView {
    EmbedView {
        title: user_name + "'s Profile"@,
        description: "**🔊 Volume:** "@ + text::int_text(profile.default_volume as int)
            + "%\n**🎚️ EQ Mode:** "@ + (if profile.default_eq_mode@ == "hifi"@ {
            "🎧 Hi-Fi"@
        } else {
            "🎵 Balanced"@
        }),
        fields: Seq::empty(),
        footer: None,
        colour: Colour::Blurple,
        thumbnail: None,
    }
}

/// Shows your current profile settings.
pub fn show(user_name: &str, profile: &UserProfile) -> (embed: Embed)
    ensures
        embed@ == profile_embed(user_name@, *profile),
{
    let mut title = user_name.to_owned();
    title.append("'s Profile");
    let mut description = between(
        "**🔊 Volume:** ",
        int_string(profile.default_volume).as_str(),
        "%\n**🎚️ EQ Mode:** ",
    );
    if same_text(profile.default_eq_mode.as_str(), "hifi") {
        description.append("🎧 Hi-Fi");
    } else {
        description.append("🎵 Balanced");
    }
    let fields: Vec<EmbedField> = Vec::new();
    assert(fields@.map_values(|f: EmbedField| f@) =~= Seq::<EmbedFieldView>::empty());
    Embed { title, description, fields, footer: None, colour: Colour::Blurple, thumbnail: None }
}

/// Confirms a new default volume, in percent.
pub fn volume(percent: i64) -> (reply: Reply)
    ensures
        reply.ephemeral,
        reply.content@ == "🔊 Volume set to **"@ + text::int_text(percent as int)
            + "%** and saved to your profile."@,
{
    Reply {
        content: between(
            "🔊 Volume set to **",
            int_string(percent).as_str(),
            "%** and saved to your profile.",
        ),
        ephemeral: true,
    }
}

/// Confirms a new default sound quality mode.
pub fn eq(mode: EqMode) -> (reply: Reply)
    ensures
        reply.ephemeral,
        reply.content@ == "✅ Sound quality mode set to **"@ + mode.caption()
            + "**. Applies starting with your next playback session."@,
{
    Reply {
        content: between(
            "✅ Sound quality mode set to **",
            mode.label(),
            "**. Applies starting with your next playback session.",
        ),
        ephemeral: true,
    }
}

/// Choosing a mode is what the next playback session applies: the filter of
/// a saved profile is the Hi-Fi one exactly for the Hi-Fi mode.
pub proof fn law_saved_mode_is_applied(profile: UserProfile, mode: EqMode, hifi_filter: Seq<char>)
    requires
        profile.default_eq_mode@ == mode.name(),
    ensures
        crate::commands::playback::filter_of(Some(profile), hifi_filter) == (match mode {
            EqMode::Balanced => None,
            EqMode::Hifi => Some(hifi_filter),
        }),
{
    reveal_strlit("balanced");
    reveal_strlit("hifi");
    assert("balanced"@.len() != "hifi"@.len());
}

/// A profile is shown with its owner's name, the saved volume, and the saved
/// mode, which is Balanced unless it is Hi-Fi.
pub proof fn law_profile_is_shown(user_name: Seq<char>, profile: UserProfile)
    ensures
        ({
            let embed = profile_embed(user_name, profile);
            &&& embed.title == user_name + "'s Profile"@
            &&& profile.default_eq_mode@ == "hifi"@ ==> embed.description == "**🔊 Volume:** "@
                + text::int_text(profile.default_volume as int) + "%\n**🎚️ EQ Mode:** "@
                + "🎧 Hi-Fi"@
            &&& profile.default_eq_mode@ != "hifi"@ ==> embed.description == "**🔊 Volume:** "@
                + text::int_text(profile.default_volume as int) + "%\n**🎚️ EQ Mode:** "@
                + "🎵 Balanced"@
            &&& embed.fields.len() == 0
            &&& embed.footer is None
            &&& embed.thumbnail is None
            &&& embed.colour == Colour::Blurple
        }),
        EqMode::Balanced.name() == "balanced"@,
        EqMode::Hifi.name() == "hifi"@,
        EqMode::Balanced.caption() == "🎵 Balanced"@,
        EqMode::Hifi.caption() == "🎧 High quality (Hi-Fi)"@,
{
}

} // verus!
