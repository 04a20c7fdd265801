//! The block categories a new database starts with.

use vstd::prelude::*;

use crate::model::BlockCategory;

verus! {

/// Domain keywords of the default "Social Media" category.
pub open spec fn social_media_domains() -> Seq<Seq<char>> {
    seq![
        "x.com"@,
        "instagram.com"@,
        "facebook.com"@,
        "tiktok.com"@,
        "reddit.com"@,
        "threads.net"@,
        "snapchat.com"@,
        "linkedin.com"@,
        "pinterest.com"@,
    ]
}

/// Application keywords of the default "Social Media" category.
pub open spec fn social_media_apps() -> Seq<Seq<char>> {
    seq!["discord"@, "instagram"@, "facebook"@, "tiktok"@, "x"@, "reddit"@]
}

/// Domain keywords of the default "Games" category.
pub open spec fn games_domains() -> Seq<Seq<char>> {
    seq![
        "steampowered.com"@,
        "steamcommunity.com"@,
        "epicgames.com"@,
        "itch.io"@,
        "roblox.com"@,
        "minecraft.net"@,
        "battle.net"@,
    ]
}

/// Application keywords of the default "Games" category.
pub open spec fn games_apps() -> Seq<Seq<char>> {
    seq!["steam"@, "epic games"@, "battle.net"@, "riot client"@, "roblox"@, "minecraft"@, "game"@]
}

/// `c` is a new (id-less), enabled, unpaused category with a one-hour daily
/// limit and the given name, keywords and position.
pub open spec fn is_default_category(
    c: BlockCategory,
    name: Seq<char>,
    domains: Seq<Seq<char>>,
    apps: Seq<Seq<char>>,
    order: i32,
) -> bool {
    &&& c.id is None
    &&& c.name@ == name
    &&& c.daily_limit_minutes == 60
    &&& c.enabled
    &&& !c.manual_block_paused
    &&& c.domain_keywords.deep_view() == domains
    &&& c.app_keywords.deep_view() == apps
    &&& c.display_order == order
}

fn push_string(v: &mut Vec<String>, s: &str)
    ensures
        final(v).deep_view() == old(v).deep_view().push(s@),
{
    v.push(String::from_str(s));
    assert(v.deep_view() =~= old(v).deep_view().push(s@));
}

fn social_media() -> (c: BlockCategory)
    ensures
        is_default_category(c, "Social Media"@, social_media_domains(), social_media_apps(), 0),
{
    let mut domains: Vec<String> = Vec::new();
    push_string(&mut domains, "x.com");
    push_string(&mut domains, "instagram.com");
    push_string(&mut domains, "facebook.com");
    push_string(&mut domains, "tiktok.com");
    push_string(&mut domains, "reddit.com");
    push_string(&mut domains, "threads.net");
    push_string(&mut domains, "snapchat.com");
    push_string(&mut domains, "linkedin.com");
    push_string(&mut domains, "pinterest.com");
    let mut apps: Vec<String> = Vec::new();
    push_string(&mut apps, "discord");
    push_string(&mut apps, "instagram");
    push_string(&mut apps, "facebook");
    push_string(&mut apps, "tiktok");
    push_string(&mut apps, "x");
    push_string(&mut apps, "reddit");
    assert(domains.deep_view() =~= social_media_domains());
    assert(apps.deep_view() =~= social_media_apps());
    BlockCategory {
        id: None,
        name: String::from_str("Social Media"),
        daily_limit_minutes: 60,
        enabled: true,
        manual_block_paused: false,
        domain_keywords: domains,
        app_keywords: apps,
        display_order: 0,
    }
}

fn games() -> (c: BlockCategory)
    ensures
        is_default_category(c, "Games"@, games_domains(), games_apps(), 1),
{
    let mut domains: Vec<String> = Vec::new();
    push_string(&mut domains, "steampowered.com");
    push_string(&mut domains, "steamcommunity.com");
    push_string(&mut domains, "epicgames.com");
    push_string(&mut domains, "itch.io");
    push_string(&mut domains, "roblox.com");
    push_string(&mut domains, "minecraft.net");
    push_string(&mut domains, "battle.net");
    let mut apps: Vec<String> = Vec::new();
    push_string(&mut apps, "steam");
    push_string(&mut apps, "epic games");
    push_string(&mut apps, "battle.net");
    push_string(&mut apps, "riot client");
    push_string(&mut apps, "roblox");
    push_string(&mut apps, "minecraft");
    push_string(&mut apps, "game");
    assert(domains.deep_view() =~= games_domains());
    assert(apps.deep_view() =~= games_apps());
    BlockCategory {
        id: None,
        name: String::from_str("Games"),
        daily_limit_minutes: 60,
        enabled: true,
        manual_block_paused: false,
        domain_keywords: domains,
        app_keywords: apps,
        display_order: 1,
    }
}

/// The categories an empty database is seeded with: "Social Media" first,
/// then "Games", each enabled with a one-hour daily limit.
pub fn default_block_categories() -> (r: Vec<BlockCategory>)
    ensures
        r@.len() == 2,
        is_default_category(r@[0], "Social Media"@, social_media_domains(), social_media_apps(), 0),
        is_default_category(r@[1], "Games"@, games_domains(), games_apps(), 1),
{
    let mut r: Vec<BlockCategory> = Vec::new();
    r.push(social_media());
    r.push(games());
    r
}

} // verus!
