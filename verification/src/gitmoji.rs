//! The fixed secondary ("gitmoji") vocabulary: shortcode, glyph and
//! description triples.  It serves as a fallback source when resolving
//! configuration aliases and as the base of the canonical shortcode table.

use vstd::prelude::*;

verus! {

pub struct GitmojiEntry {
    pub code: String,
    pub emoji: String,
    pub description: String,
}

/// The mathematical shape of one entry: (code, glyph, description).
pub type GitmojiV = (Seq<char>, Seq<char>, Seq<char>);

pub open spec fn gitmoji_v(e: GitmojiEntry) -> GitmojiV {
    (e.code@, e.emoji@, e.description@)
}

/// The fixed table, as specification data.
pub open spec fn gitmoji_defs() -> Seq<GitmojiV> {
    seq![
        ("art"@, "\u{1f3a8}"@, "Improving structure / format of the code."@),
        ("zap"@, "\u{26a1}\u{fe0f}"@, "Improving performance."@),
        ("fire"@, "\u{1f525}"@, "Removing code or files."@),
        ("bug"@, "\u{1f41b}"@, "Fixing a bug."@),
        ("ambulance"@, "\u{1f691}"@, "Critical hotfix."@),
        ("sparkles"@, "\u{2728}"@, "Introducing new features."@),
        ("pencil"@, "\u{1f4dd}"@, "Writing docs."@),
        ("rocket"@, "\u{1f680}"@, "Deploying stuff."@),
        ("lipstick"@, "\u{1f484}"@, "Updating the UI and style files."@),
        ("tada"@, "\u{1f389}"@, "Initial commit."@),
        ("white_check_mark"@, "\u{2705}"@, "Updating tests."@),
        ("lock"@, "\u{1f512}\u{fe0f}"@, "Fixing security issues."@),
        ("apple"@, "\u{1f34e}"@, "Fixing something on macOS."@),
        ("penguin"@, "\u{1f427}"@, "Fixing something on Linux."@),
        ("checkered_flag"@, "\u{1f3c1}"@, "Fixing something on Windows."@),
        ("robot"@, "\u{1f916}"@, "Fixing something on Android."@),
        ("green_apple"@, "\u{1f34f}"@, "Fixing something on iOS."@),
        ("bookmark"@, "\u{1f516}"@, "Releasing / Version tags."@),
        ("rotating_light"@, "\u{1f6a8}"@, "Removing linter warnings."@),
        ("construction"@, "\u{1f6a7}"@, "Work in progress."@),
        ("green_heart"@, "\u{1f49a}"@, "Fixing CI Build."@),
        ("arrow_down"@, "\u{2b07}\u{fe0f}"@, "Downgrading dependencies."@),
        ("arrow_up"@, "\u{2b06}\u{fe0f}"@, "Upgrading dependencies."@),
        ("pushpin"@, "\u{1f4cc}"@, "Pinning dependencies to specific versions."@),
        ("construction_worker"@, "\u{1f477}"@, "Adding CI build system."@),
        ("chart_with_upwards_trend"@, "\u{1f4c8}"@, "Adding analytics or tracking code."@),
        ("recycle"@, "\u{267b}\u{fe0f}"@, "Refactoring code."@),
        ("whale"@, "\u{1f433}"@, "Work about Docker."@),
        ("heavy_plus_sign"@, "\u{2795}"@, "Adding a dependency."@),
        ("heavy_minus_sign"@, "\u{2796}"@, "Removing a dependency."@),
        ("wrench"@, "\u{1f527}"@, "Changing configuration files."@),
        ("globe_with_meridians"@, "\u{1f310}"@, "Internationalization and localization."@),
        ("pencil2"@, "\u{270f}\u{fe0f}"@, "Fixing typos."@),
        ("poop"@, "\u{1f4a9}"@, "Writing bad code that needs to be improved."@),
        ("rewind"@, "\u{23ea}"@, "Reverting changes."@),
        ("twisted_rightwards_arrows"@, "\u{1f500}"@, "Merging branches."@),
        ("package"@, "\u{1f4e6}\u{fe0f}"@, "Updating compiled files or packages."@),
        ("alien"@, "\u{1f47d}"@, "Updating code due to external API changes."@),
        ("truck"@, "\u{1f69a}"@, "Moving or renaming files."@),
        ("page_facing_up"@, "\u{1f4c4}"@, "Adding or updating license."@),
        ("boom"@, "\u{1f4a5}"@, "Introducing breaking changes."@),
        ("bento"@, "\u{1f371}"@, "Adding or updating assets."@),
        ("ok_hand"@, "\u{1f44c}"@, "Updating code due to code review changes."@),
        ("wheelchair"@, "\u{267f}\u{fe0f}"@, "Improving accessibility."@),
        ("bulb"@, "\u{1f4a1}"@, "Documenting source code."@),
        ("beers"@, "\u{1f37b}"@, "Writing code drunkenly."@),
        ("speech_balloon"@, "\u{1f4ac}"@, "Updating text and literals."@),
        ("card_file_box"@, "\u{1f5c3}"@, "Performing database related changes."@),
        ("loud_sound"@, "\u{1f50a}"@, "Adding logs."@),
        ("mute"@, "\u{1f507}"@, "Removing logs."@),
        ("busts_in_silhouette"@, "\u{1f465}"@, "Adding contributor(s)."@),
        ("children_crossing"@, "\u{1f6b8}"@, "Improving user experience / usability."@),
        ("building_construction"@, "\u{1f3d7}"@, "Making architectural changes."@),
        ("iphone"@, "\u{1f4f1}"@, "Working on responsive design."@),
        ("clown_face"@, "\u{1f921}"@, "Mocking things."@),
        ("egg"@, "\u{1f95a}"@, "Adding an easter egg."@),
        ("see_no_evil"@, "\u{1f648}"@, "Adding or updating a .gitignore file."@),
        ("camera_flash"@, "\u{1f4f8}"@, "Adding or updating snapshots."@),
        ("alembic"@, "\u{2697}"@, "Experimenting new things."@),
        ("mag"@, "\u{1f50d}"@, "Improving SEO."@),
        ("wheel_of_dharma"@, "\u{2638}\u{fe0f}"@, "Work about Kubernetes."@),
        ("label"@, "\u{1f3f7}\u{fe0f}"@, "Adding or updating types (Flow, TypeScript)."@),
        ("seedling"@, "\u{1f331}"@, "Adding or updating seed files."@),
        ("triangular_flag_on_post"@, "\u{1f6a9}"@, "Adding, updating, or removing feature flags."@),
        ("goal_net"@, "\u{1f945}"@, "Catching errors."@),
        ("dizzy"@, "\u{1f4ab}"@, "Adding or updating animations and transitions."@),
        ("wastebasket"@, "\u{1f5d1}"@, "Deprecating code that needs to be cleaned up."@),
    ]
}

fn entry(code: &str, emoji: &str, description: &str) -> (e: GitmojiEntry)
    ensures
        gitmoji_v(e) == (code@, emoji@, description@),
{
    GitmojiEntry {
        code: code.to_owned(),
        emoji: emoji.to_owned(),
        description: description.to_owned(),
    }
}

/// Builds the fixed table; its content is exactly `gitmoji_defs()`.
#[verifier::rlimit(100)]
pub fn gitmoji_table() -> (v: Vec<GitmojiEntry>)
    ensures
        v@.map_values(|e: GitmojiEntry| gitmoji_v(e)) == gitmoji_defs(),
{
    let mut v: Vec<GitmojiEntry> = Vec::new();
    v.push(entry("art", "\u{1f3a8}", "Improving structure / format of the code."));
    v.push(entry("zap", "\u{26a1}\u{fe0f}", "Improving performance."));
    v.push(entry("fire", "\u{1f525}", "Removing code or files."));
    v.push(entry("bug", "\u{1f41b}", "Fixing a bug."));
    v.push(entry("ambulance", "\u{1f691}", "Critical hotfix."));
    v.push(entry("sparkles", "\u{2728}", "Introducing new features."));
    v.push(entry("pencil", "\u{1f4dd}", "Writing docs."));
    v.push(entry("rocket", "\u{1f680}", "Deploying stuff."));
    v.push(entry("lipstick", "\u{1f484}", "Updating the UI and style files."));
    v.push(entry("tada", "\u{1f389}", "Initial commit."));
    v.push(entry("white_check_mark", "\u{2705}", "Updating tests."));
    v.push(entry("lock", "\u{1f512}\u{fe0f}", "Fixing security issues."));
    v.push(entry("apple", "\u{1f34e}", "Fixing something on macOS."));
    v.push(entry("penguin", "\u{1f427}", "Fixing something on Linux."));
    v.push(entry("checkered_flag", "\u{1f3c1}", "Fixing something on Windows."));
    v.push(entry("robot", "\u{1f916}", "Fixing something on Android."));
    v.push(entry("green_apple", "\u{1f34f}", "Fixing something on iOS."));
    v.push(entry("bookmark", "\u{1f516}", "Releasing / Version tags."));
    v.push(entry("rotating_light", "\u{1f6a8}", "Removing linter warnings."));
    v.push(entry("construction", "\u{1f6a7}", "Work in progress."));
    v.push(entry("green_heart", "\u{1f49a}", "Fixing CI Build."));
    v.push(entry("arrow_down", "\u{2b07}\u{fe0f}", "Downgrading dependencies."));
    v.push(entry("arrow_up", "\u{2b06}\u{fe0f}", "Upgrading dependencies."));
    v.push(entry("pushpin", "\u{1f4cc}", "Pinning dependencies to specific versions."));
    v.push(entry("construction_worker", "\u{1f477}", "Adding CI build system."));
    v.push(entry("chart_with_upwards_trend", "\u{1f4c8}", "Adding analytics or tracking code."));
    v.push(entry("recycle", "\u{267b}\u{fe0f}", "Refactoring code."));
    v.push(entry("whale", "\u{1f433}", "Work about Docker."));
    v.push(entry("heavy_plus_sign", "\u{2795}", "Adding a dependency."));
    v.push(entry("heavy_minus_sign", "\u{2796}", "Removing a dependency."));
    v.push(entry("wrench", "\u{1f527}", "Changing configuration files."));
    v.push(entry("globe_with_meridians", "\u{1f310}", "Internationalization and localization."));
    v.push(entry("pencil2", "\u{270f}\u{fe0f}", "Fixing typos."));
    v.push(entry("poop", "\u{1f4a9}", "Writing bad code that needs to be improved."));
    v.push(entry("rewind", "\u{23ea}", "Reverting changes."));
    v.push(entry("twisted_rightwards_arrows", "\u{1f500}", "Merging branches."));
    v.push(entry("package", "\u{1f4e6}\u{fe0f}", "Updating compiled files or packages."));
    v.push(entry("alien", "\u{1f47d}", "Updating code due to external API changes."));
    v.push(entry("truck", "\u{1f69a}", "Moving or renaming files."));
    v.push(entry("page_facing_up", "\u{1f4c4}", "Adding or updating license."));
    v.push(entry("boom", "\u{1f4a5}", "Introducing breaking changes."));
    v.push(entry("bento", "\u{1f371}", "Adding or updating assets."));
    v.push(entry("ok_hand", "\u{1f44c}", "Updating code due to code review changes."));
    v.push(entry("wheelchair", "\u{267f}\u{fe0f}", "Improving accessibility."));
    v.push(entry("bulb", "\u{1f4a1}", "Documenting source code."));
    v.push(entry("beers", "\u{1f37b}", "Writing code drunkenly."));
    v.push(entry("speech_balloon", "\u{1f4ac}", "Updating text and literals."));
    v.push(entry("card_file_box", "\u{1f5c3}", "Performing database related changes."));
    v.push(entry("loud_sound", "\u{1f50a}", "Adding logs."));
    v.push(entry("mute", "\u{1f507}", "Removing logs."));
    v.push(entry("busts_in_silhouette", "\u{1f465}", "Adding contributor(s)."));
    v.push(entry("children_crossing", "\u{1f6b8}", "Improving user experience / usability."));
    v.push(entry("building_construction", "\u{1f3d7}", "Making architectural changes."));
    v.push(entry("iphone", "\u{1f4f1}", "Working on responsive design."));
    v.push(entry("clown_face", "\u{1f921}", "Mocking things."));
    v.push(entry("egg", "\u{1f95a}", "Adding an easter egg."));
    v.push(entry("see_no_evil", "\u{1f648}", "Adding or updating a .gitignore file."));
    v.push(entry("camera_flash", "\u{1f4f8}", "Adding or updating snapshots."));
    v.push(entry("alembic", "\u{2697}", "Experimenting new things."));
    v.push(entry("mag", "\u{1f50d}", "Improving SEO."));
    v.push(entry("wheel_of_dharma", "\u{2638}\u{fe0f}", "Work about Kubernetes."));
    v.push(entry("label", "\u{1f3f7}\u{fe0f}", "Adding or updating types (Flow, TypeScript)."));
    v.push(entry("seedling", "\u{1f331}", "Adding or updating seed files."));
    v.push(entry("triangular_flag_on_post", "\u{1f6a9}", "Adding, updating, or removing feature flags."));
    v.push(entry("goal_net", "\u{1f945}", "Catching errors."));
    v.push(entry("dizzy", "\u{1f4ab}", "Adding or updating animations and transitions."));
    v.push(entry("wastebasket", "\u{1f5d1}", "Deprecating code that needs to be cleaned up."));
    proof {
        assert(v@.map_values(|e: GitmojiEntry| gitmoji_v(e)) =~= gitmoji_defs());
    }
    v
}

} // verus!
