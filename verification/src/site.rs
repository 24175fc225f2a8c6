//! The site's settings and its navigation menu.

use vstd::prelude::*;

verus! {

/// Articles in the feed where the settings name no number.
pub const DEFAULT_RSS_COUNT: usize = 10;

/// Length of a description in the feed where the settings name none.
pub const DEFAULT_RSS_LENGTH: usize = 200;

/// One entry of the navigation menu.
#[derive(Debug, Clone, PartialEq, Eq)]
pub struct Menu {
    pub url: String,
    pub name: String,
    pub weight: u32,
    pub identifier: String,
}

/// The settings of the site.
#[derive(Debug, Clone, PartialEq, Eq)]
pub struct Site {
    /// Title of the site.
    pub title: String,
    /// Address of the site, with scheme and host.
    pub url: String,
    /// Number of articles in the feed.
    pub rss_count: usize,
    /// Greatest length of a description in the feed.
    pub rss_length: usize,
    /// Priority given to every address of the sitemap.
    pub priority: String,
    /// Keywords of the site.
    pub keywords: String,
    /// Description of the site.
    pub description: String,
    /// Author of the site.
    pub author: String,
    /// The navigation menu.
    pub menus: Vec<Menu>,
    /// The current year.
    pub year: u32,
}

/// One entry of the menu as it stands in the configuration: any of its four
/// fields may be missing or of the wrong kind.
#[derive(Debug, Clone, PartialEq, Eq)]
pub struct MenuEntry {
    pub url: Option<String>,
    pub name: Option<String>,
    pub weight: Option<i64>,
    pub identifier: Option<String>,
}

/// The settings as they were found: a text that is missing is `None`, and so
/// is a number that is missing or that could not be read.
#[derive(Debug, Clone, PartialEq, Eq)]
pub struct SiteSettings {
    pub title: Option<String>,
    pub url: Option<String>,
    pub rss_count: Option<usize>,
    pub rss_length: Option<usize>,
    pub priority: Option<String>,
    pub keywords: Option<String>,
    pub description: Option<String>,
    pub author: Option<String>,
}

/// A [`Menu`] as plain mathematical data.
pub struct MenuView {
    pub url: Seq<char>,
    pub name: Seq<char>,
    pub weight: u32,
    pub identifier: Seq<char>,
}

impl View for Menu {
    type V = MenuView;

    open spec fn view(&self) -> MenuView {
        MenuView {
            url: self.url@,
            name: self.name@,
            weight: self.weight,
            identifier: self.identifier@,
        }
    }
}

/// The views of a sequence of menu entries.
pub open spec fn menus_view(menus: Seq<Menu>) -> Seq<MenuView> {
    menus.map_values(|m: Menu| m@)
}

/// The weight of a menu entry: the configured number taken modulo 2^32.
pub open spec fn menu_weight(weight: i64) -> u32 {
    (weight % 0x1_0000_0000) as u32
}

/// The menu entry that a configured entry gives, if it is complete.
pub open spec fn menu_of(entry: MenuEntry) -> Option<MenuView> {
    match (entry.url, entry.name, entry.weight, entry.identifier) {
        (Some(url), Some(name), Some(weight), Some(identifier)) => Some(
            MenuView { url: url@, name: name@, weight: menu_weight(weight), identifier: identifier@ },
        ),
        _ => None,
    }
}

/// The menu made of the complete entries of a configuration, in order.
pub open spec fn menu_from(entries: Seq<MenuEntry>) -> Seq<MenuView>
    decreases entries.len(),
{
    if entries.len() == 0 {
        Seq::empty()
    } else {
        let front = menu_from(entries.drop_last());
        match menu_of(entries.last()) {
            Some(menu) => front.push(menu),
            None => front,
        }
    }
}

/// The text of a setting, or the default where it is not set.
pub open spec fn text_or(setting: Option<String>, default: Seq<char>) -> Seq<char> {
    match setting {
        Some(text) => text@,
        None => default,
    }
}

/// The number of a setting, or the default where it is not set.
pub open spec fn number_or(setting: Option<usize>, default: usize) -> usize {
    match setting {
        Some(number) => number,
        None => default,
    }
}

/// The text of a setting, or the default where it is not set.
fn setting_or(setting: Option<String>, default: &str) -> (text: String)
    ensures
        text@ == text_or(setting, default@),
{
    match setting {
        Some(text) => text,
        None => default.to_owned(),
    }
}

impl Menu {
    /// The menu made of the complete entries of a configuration: an entry
    /// that lacks one of its four fields is left out.
    pub fn from_entries(entries: Vec<MenuEntry>) -> (menus: Vec<Menu>)
        ensures
            menus_view(menus@) == menu_from(entries@),
    {
        let mut menus: Vec<Menu> = Vec::new();
        let ghost input = entries@;
        for entry in it: entries
            invariant
                it.seq() == input,
                menus_view(menus@) == menu_from(input.take(it.index() as int)),
        {
            proof {
                assert(input.take(it.index() + 1).drop_last() == input.take(it.index() as int));
                assert(input.take(it.index() + 1).last() == entry);
            }
            let MenuEntry { url, name, weight, identifier } = entry;
            match (url, name, weight, identifier) {
                (Some(url), Some(name), Some(weight), Some(identifier)) => {
                    let low: i64 = weight % 0x1_0000_0000;
                    let weight: u32 = if low < 0 {
                        (low + 0x1_0000_0000) as u32
                    } else {
                        low as u32
                    };
                    let menu = Menu { url, name, weight, identifier };
                    let ghost before = menus@;
                    proof {
                        assert(menus_view(before.push(menu)) =~= menus_view(before).push(menu@));
                    }
                    menus.push(menu);
                },
                _ => {},
            }
        }
        proof {
            assert(input.take(input.len() as int) == input);
        }
        menus
    }
}

impl Site {
    /// The site described by the settings that were found, with the default
    /// for each one that was not.
    pub fn from_settings(settings: SiteSettings, menus: Vec<Menu>, year: u32) -> (site: Site)
        ensures
            site.title@ == text_or(settings.title, "Default Title"@),
            site.url@ == text_or(settings.url, "http://localhost:3000"@),
            site.rss_count == number_or(settings.rss_count, DEFAULT_RSS_COUNT),
            site.rss_length == number_or(settings.rss_length, DEFAULT_RSS_LENGTH),
            site.priority@ == text_or(settings.priority, "0.5"@),
            site.keywords@ == text_or(settings.keywords, ""@),
            site.description@ == text_or(settings.description, ""@),
            site.author@ == text_or(settings.author, ""@),
            site.menus == menus,
            site.year == year,
    {
        let SiteSettings {
            title,
            url,
            rss_count,
            rss_length,
            priority,
            keywords,
            description,
            author,
        } = settings;
        Site {
            title: setting_or(title, "Default Title"),
            url: setting_or(url, "http://localhost:3000"),
            rss_count: match rss_count {
                Some(number) => number,
                None => DEFAULT_RSS_COUNT,
            },
            rss_length: match rss_length {
                Some(number) => number,
                None => DEFAULT_RSS_LENGTH,
            },
            priority: setting_or(priority, "0.5"),
            keywords: setting_or(keywords, ""),
            description: setting_or(description, ""),
            author: setting_or(author, ""),
            menus,
            year,
        }
    }
}

} // verus!
