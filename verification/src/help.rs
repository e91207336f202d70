//! Help screen tabs and the shape of help content.

use vstd::prelude::*;
use crate::text::chars_of;
use crate::submit::{trimmed, trim_chars, string_of};
use crate::settings::{split_pieces, split_commas, str_views};

verus! {

/// The tabs of the help screen.
#[derive(PartialEq, Eq, Structural, Clone, Copy, Debug, Hash)]
pub enum HelpTab {
    Syntax,
    Shortcuts,
    About,
}

impl Default for HelpTab {
    fn default() -> (t: HelpTab)
        ensures
            t == HelpTab::Syntax,
    {
        HelpTab::Syntax
    }
}

/// One line of help: the keys or syntax, what it does, and an example.
#[derive(Clone, Debug)]
pub struct HelpItem {
    pub keys: String,
    pub desc: String,
    pub example: String,
}

/// A titled group of help lines.
#[derive(Clone, Debug)]
pub struct HelpSection {
    pub title: String,
    pub items: Vec<HelpItem>,
}

/// The tab after `tab` (forward) or before it, cycling through Syntax, Shortcuts, About.
pub open spec fn spec_next_help_tab(tab: HelpTab, forward: bool) -> HelpTab {
    if forward {
        match tab {
            HelpTab::Syntax => HelpTab::Shortcuts,
            HelpTab::Shortcuts => HelpTab::About,
            HelpTab::About => HelpTab::Syntax,
        }
    } else {
        match tab {
            HelpTab::Syntax => HelpTab::About,
            HelpTab::Shortcuts => HelpTab::Syntax,
            HelpTab::About => HelpTab::Shortcuts,
        }
    }
}

/// Switch the help screen to the next tab (forward) or the previous one.
pub fn switch_help_tab(tab: HelpTab, forward: bool) -> (r: HelpTab)
    ensures
        r == spec_next_help_tab(tab, forward),
{
    if forward {
        match tab {
            HelpTab::Syntax => HelpTab::Shortcuts,
            HelpTab::Shortcuts => HelpTab::About,
            HelpTab::About => HelpTab::Syntax,
        }
    } else {
        match tab {
            HelpTab::Syntax => HelpTab::About,
            HelpTab::Shortcuts => HelpTab::Syntax,
            HelpTab::About => HelpTab::Shortcuts,
        }
    }
}

/// Switching tabs forward then backward (or backward then forward) returns to the start,
/// and three switches in one direction go all the way round.
pub proof fn help_tab_switch_round_trip(tab: HelpTab, forward: bool)
    ensures
        spec_next_help_tab(spec_next_help_tab(tab, forward), !forward) == tab,
        spec_next_help_tab(spec_next_help_tab(spec_next_help_tab(tab, forward), forward), forward) == tab,
{
}

/// The keyword a help line shows for a translated keyword list (`"@, due:"`): its first
/// comma-separated entry, trimmed.
pub fn first_keyword(list: &str) -> (r: String)
    ensures
        r@ == trimmed(split_pieces(list@, ',')[0]),
{
    let pieces = split_commas(&chars_of(list));
    assert(pieces@.map_values(|v: Vec<char>| v@)[0] == pieces@[0]@);
    string_of(&trim_chars(&pieces[0]))
}

/// How many parser keyword lists the syntax guide is built from.
pub const SYNTAX_KEYWORDS: usize = 31;

/// How many translated texts the syntax guide is built from.
pub const SYNTAX_TEXTS: usize = 93;

/// The first section of the syntax guide, over the first keyword of each parser
/// keyword list (`kw`) and the translated texts (`tx`).
pub open spec fn syntax_section_0(s: HelpSection, kw: Seq<Seq<char>>, tx: Seq<Seq<char>>) -> bool {
    &&& s.title@ == tx[0]
    &&& s.items@.len() == 9
    &&& s.items@[0].keys@ == "!1..9"@
    &&& s.items@[0].desc@ == tx[1]
    &&& s.items@[0].example@ == tx[2] + " !1"@
    &&& s.items@[1].keys@ == kw[0] + "date"@
    &&& s.items@[1].desc@ == tx[3]
    &&& s.items@[1].example@ == tx[4] + " "@ + kw[0] + kw[1] + ", "@ + kw[0] + "2025-01-01"@
    &&& s.items@[2].keys@ == kw[2] + "date"@
    &&& s.items@[2].desc@ == tx[5]
    &&& s.items@[2].example@ == kw[2] + kw[3] + " "@ + kw[4] + ", "@ + kw[2] + kw[1]
    &&& s.items@[3].keys@ == kw[5] + "date"@
    &&& s.items@[3].desc@ == tx[6]
    &&& s.items@[3].example@ == kw[5] + kw[1] + ", "@ + kw[5] + "2"@ + kw[6] + ", "@ + kw[5] + "2026-06-06 15:00-18:30"@
    &&& s.items@[4].keys@ == "#tag"@
    &&& s.items@[4].desc@ == tx[7]
    &&& s.items@[4].example@ == tx[8] + " #breathe #gardening:trees"@
    &&& s.items@[5].keys@ == "#tag{a,b}"@
    &&& s.items@[5].desc@ == tx[9]
    &&& s.items@[5].example@ == "#gaming{solo,genre=rpg}"@
    &&& s.items@[6].keys@ == kw[7] + "location"@
    &&& s.items@[6].desc@ == tx[10]
    &&& s.items@[6].example@ == tx[11] + " "@ + kw[7] + "aldi"@
    &&& s.items@[7].keys@ == "##tag, @@@loc"@
    &&& s.items@[7].desc@ == tx[12]
    &&& s.items@[7].example@ == tx[13]
    &&& s.items@[8].keys@ == kw[8] + "duration"@
    &&& s.items@[8].desc@ == tx[14]
    &&& s.items@[8].example@ == tx[15] + " "@ + kw[8] + "30"@ + kw[9] + ", "@ + tx[16] + " "@ + kw[8] + "1"@ + kw[10] + "-2"@ + kw[10]
}

fn build_syntax_section_0(kwv: &Vec<String>, texts: &Vec<String>) -> (s: HelpSection)
    requires
        kwv@.len() == SYNTAX_KEYWORDS,
        texts@.len() == SYNTAX_TEXTS,
    ensures
        syntax_section_0(s, str_views(kwv@), str_views(texts@)),
{
    let title = texts[0].clone();
    let mut items: Vec<HelpItem> = Vec::new();
    let k0 = String::from_str("!1..9");
    let d0 = texts[1].clone();
    let mut e0 = texts[2].clone();
    e0.append(" !1");
    items.push(HelpItem { keys: k0, desc: d0, example: e0 });
    let mut k1 = kwv[0].clone();
    k1.append("date");
    let d1 = texts[3].clone();
    let mut e1 = texts[4].clone();
    e1.append(" ");
    e1.append(kwv[0].as_str());
    e1.append(kwv[1].as_str());
    e1.append(", ");
    e1.append(kwv[0].as_str());
    e1.append("2025-01-01");
    items.push(HelpItem { keys: k1, desc: d1, example: e1 });
    let mut k2 = kwv[2].clone();
    k2.append("date");
    let d2 = texts[5].clone();
    let mut e2 = kwv[2].clone();
    e2.append(kwv[3].as_str());
    e2.append(" ");
    e2.append(kwv[4].as_str());
    e2.append(", ");
    e2.append(kwv[2].as_str());
    e2.append(kwv[1].as_str());
    items.push(HelpItem { keys: k2, desc: d2, example: e2 });
    let mut k3 = kwv[5].clone();
    k3.append("date");
    let d3 = texts[6].clone();
    let mut e3 = kwv[5].clone();
    e3.append(kwv[1].as_str());
    e3.append(", ");
    e3.append(kwv[5].as_str());
    e3.append("2");
    e3.append(kwv[6].as_str());
    e3.append(", ");
    e3.append(kwv[5].as_str());
    e3.append("2026-06-06 15:00-18:30");
    items.push(HelpItem { keys: k3, desc: d3, example: e3 });
    let k4 = String::from_str("#tag");
    let d4 = texts[7].clone();
    let mut e4 = texts[8].clone();
    e4.append(" #breathe #gardening:trees");
    items.push(HelpItem { keys: k4, desc: d4, example: e4 });
    let k5 = String::from_str("#tag{a,b}");
    let d5 = texts[9].clone();
    let e5 = String::from_str("#gaming{solo,genre=rpg}");
    items.push(HelpItem { keys: k5, desc: d5, example: e5 });
    let mut k6 = kwv[7].clone();
    k6.append("location");
    let d6 = texts[10].clone();
    let mut e6 = texts[11].clone();
    e6.append(" ");
    e6.append(kwv[7].as_str());
    e6.append("aldi");
    items.push(HelpItem { keys: k6, desc: d6, example: e6 });
    let k7 = String::from_str("##tag, @@@loc");
    let d7 = texts[12].clone();
    let e7 = texts[13].clone();
    items.push(HelpItem { keys: k7, desc: d7, example: e7 });
    let mut k8 = kwv[8].clone();
    k8.append("duration");
    let d8 = texts[14].clone();
    let mut e8 = texts[15].clone();
    e8.append(" ");
    e8.append(kwv[8].as_str());
    e8.append("30");
    e8.append(kwv[9].as_str());
    e8.append(", ");
    e8.append(texts[16].as_str());
    e8.append(" ");
    e8.append(kwv[8].as_str());
    e8.append("1");
    e8.append(kwv[10].as_str());
    e8.append("-2");
    e8.append(kwv[10].as_str());
    items.push(HelpItem { keys: k8, desc: d8, example: e8 });
    HelpSection { title, items }
}

/// The second section of the syntax guide, over the first keyword of each parser
/// keyword list (`kw`) and the translated texts (`tx`).
pub open spec fn syntax_section_1(s: HelpSection, kw: Seq<Seq<char>>, tx: Seq<Seq<char>>) -> bool {
    &&& s.title@ == tx[17]
    &&& s.items@.len() == 5
    &&& s.items@[0].keys@ == kw[9] + ", "@ + kw[10] + ", "@ + kw[6] + ", "@ + kw[4] + ", "@ + kw[11] + ", "@ + kw[12]
    &&& s.items@[0].desc@ == tx[18]
    &&& s.items@[0].example@ == "15"@ + kw[9] + ", 2"@ + kw[10] + ", 3"@ + kw[6] + ", 1"@ + kw[4] + ", 6"@ + kw[11] + ", 1"@ + kw[12]
    &&& s.items@[1].keys@ == tx[19]
    &&& s.items@[1].desc@ == tx[20]
    &&& s.items@[1].example@ == kw[0] + "1"@ + kw[6] + ", "@ + kw[2] + "2"@ + kw[4] + ", "@ + kw[0] + "3"@ + kw[11] + ", ..."@
    &&& s.items@[2].keys@ == tx[21]
    &&& s.items@[2].desc@ == tx[22]
    &&& s.items@[2].example@ == kw[0] + "friday, "@ + kw[0] + "fri, "@ + kw[0] + "mon"@
    &&& s.items@[3].keys@ == tx[23]
    &&& s.items@[3].desc@ == tx[24]
    &&& s.items@[3].example@ == kw[0] + "next 8, "@ + kw[2] + "next 15"@
    &&& s.items@[4].keys@ == tx[25]
    &&& s.items@[4].desc@ == tx[26]
    &&& s.items@[4].example@ == kw[0] + "2025-10-31, "@ + kw[0] + "2026-05, "@ + kw[0] + "2027"@
}

fn build_syntax_section_1(kwv: &Vec<String>, texts: &Vec<String>) -> (s: HelpSection)
    requires
        kwv@.len() == SYNTAX_KEYWORDS,
        texts@.len() == SYNTAX_TEXTS,
    ensures
        syntax_section_1(s, str_views(kwv@), str_views(texts@)),
{
    let title = texts[17].clone();
    let mut items: Vec<HelpItem> = Vec::new();
    let mut k0 = kwv[9].clone();
    k0.append(", ");
    k0.append(kwv[10].as_str());
    k0.append(", ");
    k0.append(kwv[6].as_str());
    k0.append(", ");
    k0.append(kwv[4].as_str());
    k0.append(", ");
    k0.append(kwv[11].as_str());
    k0.append(", ");
    k0.append(kwv[12].as_str());
    let d0 = texts[18].clone();
    let mut e0 = String::from_str("15");
    e0.append(kwv[9].as_str());
    e0.append(", 2");
    e0.append(kwv[10].as_str());
    e0.append(", 3");
    e0.append(kwv[6].as_str());
    e0.append(", 1");
    e0.append(kwv[4].as_str());
    e0.append(", 6");
    e0.append(kwv[11].as_str());
    e0.append(", 1");
    e0.append(kwv[12].as_str());
    items.push(HelpItem { keys: k0, desc: d0, example: e0 });
    let k1 = texts[19].clone();
    let d1 = texts[20].clone();
    let mut e1 = kwv[0].clone();
    e1.append("1");
    e1.append(kwv[6].as_str());
    e1.append(", ");
    e1.append(kwv[2].as_str());
    e1.append("2");
    e1.append(kwv[4].as_str());
    e1.append(", ");
    e1.append(kwv[0].as_str());
    e1.append("3");
    e1.append(kwv[11].as_str());
    e1.append(", ...");
    items.push(HelpItem { keys: k1, desc: d1, example: e1 });
    let k2 = texts[21].clone();
    let d2 = texts[22].clone();
    let mut e2 = kwv[0].clone();
    e2.append("friday, ");
    e2.append(kwv[0].as_str());
    e2.append("fri, ");
    e2.append(kwv[0].as_str());
    e2.append("mon");
    items.push(HelpItem { keys: k2, desc: d2, example: e2 });
    let k3 = texts[23].clone();
    let d3 = texts[24].clone();
    let mut e3 = kwv[0].clone();
    e3.append("next 8, ");
    e3.append(kwv[2].as_str());
    e3.append("next 15");
    items.push(HelpItem { keys: k3, desc: d3, example: e3 });
    let k4 = texts[25].clone();
    let d4 = texts[26].clone();
    let mut e4 = kwv[0].clone();
    e4.append("2025-10-31, ");
    e4.append(kwv[0].as_str());
    e4.append("2026-05, ");
    e4.append(kwv[0].as_str());
    e4.append("2027");
    items.push(HelpItem { keys: k4, desc: d4, example: e4 });
    HelpSection { title, items }
}

/// The third section of the syntax guide, over the first keyword of each parser
/// keyword list (`kw`) and the translated texts (`tx`).
pub open spec fn syntax_section_2(s: HelpSection, kw: Seq<Seq<char>>, tx: Seq<Seq<char>>) -> bool {
    &&& s.title@ == tx[27]
    &&& s.items@.len() == 5
    &&& s.items@[0].keys@ == kw[13] + " X"@
    &&& s.items@[0].desc@ == tx[28]
    &&& s.items@[0].example@ == kw[13] + " 1"@ + kw[4] + ", "@ + kw[13] + " 2"@ + kw[11]
    &&& s.items@[1].keys@ == kw[0] + "daily ("@ + tx[29] + " "@ + kw[14] + "daily)"@
    &&& s.items@[1].desc@ == tx[30]
    &&& s.items@[1].example@ == kw[0] + "daily, "@ + kw[0] + "weekly, "@ + kw[0] + "monthly, "@ + kw[0] + "yearly"@
    &&& s.items@[2].keys@ == kw[15] + " X"@
    &&& s.items@[2].desc@ == tx[31]
    &&& s.items@[2].example@ == kw[15] + " 3 "@ + kw[6] + ", "@ + kw[15] + " 2 "@ + kw[4] + ", "@ + kw[15] + " tuesday, "@ + kw[15] + " sat,sun"@
    &&& s.items@[3].keys@ == kw[16] + " <date>"@
    &&& s.items@[3].desc@ == tx[32]
    &&& s.items@[3].example@ == kw[0] + "daily "@ + kw[16] + " 2025-12-31"@
    &&& s.items@[4].keys@ == kw[17] + " <...>"@
    &&& s.items@[4].desc@ == tx[33]
    &&& s.items@[4].example@ == kw[0] + "daily "@ + kw[17] + " 2025-12-25,sat,sun,dec"@
}

fn build_syntax_section_2(kwv: &Vec<String>, texts: &Vec<String>) -> (s: HelpSection)
    requires
        kwv@.len() == SYNTAX_KEYWORDS,
        texts@.len() == SYNTAX_TEXTS,
    ensures
        syntax_section_2(s, str_views(kwv@), str_views(texts@)),
{
    let title = texts[27].clone();
    let mut items: Vec<HelpItem> = Vec::new();
    let mut k0 = kwv[13].clone();
    k0.append(" X");
    let d0 = texts[28].clone();
    let mut e0 = kwv[13].clone();
    e0.append(" 1");
    e0.append(kwv[4].as_str());
    e0.append(", ");
    e0.append(kwv[13].as_str());
    e0.append(" 2");
    e0.append(kwv[11].as_str());
    items.push(HelpItem { keys: k0, desc: d0, example: e0 });
    let mut k1 = kwv[0].clone();
    k1.append("daily (");
    k1.append(texts[29].as_str());
    k1.append(" ");
    k1.append(kwv[14].as_str());
    k1.append("daily)");
    let d1 = texts[30].clone();
    let mut e1 = kwv[0].clone();
    e1.append("daily, ");
    e1.append(kwv[0].as_str());
    e1.append("weekly, ");
    e1.append(kwv[0].as_str());
    e1.append("monthly, ");
    e1.append(kwv[0].as_str());
    e1.append("yearly");
    items.push(HelpItem { keys: k1, desc: d1, example: e1 });
    let mut k2 = kwv[15].clone();
    k2.append(" X");
    let d2 = texts[31].clone();
    let mut e2 = kwv[15].clone();
    e2.append(" 3 ");
    e2.append(kwv[6].as_str());
    e2.append(", ");
    e2.append(kwv[15].as_str());
    e2.append(" 2 ");
    e2.append(kwv[4].as_str());
    e2.append(", ");
    e2.append(kwv[15].as_str());
    e2.append(" tuesday, ");
    e2.append(kwv[15].as_str());
    e2.append(" sat,sun");
    items.push(HelpItem { keys: k2, desc: d2, example: e2 });
    let mut k3 = kwv[16].clone();
    k3.append(" <date>");
    let d3 = texts[32].clone();
    let mut e3 = kwv[0].clone();
    e3.append("daily ");
    e3.append(kwv[16].as_str());
    e3.append(" 2025-12-31");
    items.push(HelpItem { keys: k3, desc: d3, example: e3 });
    let mut k4 = kwv[17].clone();
    k4.append(" <...>");
    let d4 = texts[33].clone();
    let mut e4 = kwv[0].clone();
    e4.append("daily ");
    e4.append(kwv[17].as_str());
    e4.append(" 2025-12-25,sat,sun,dec");
    items.push(HelpItem { keys: k4, desc: d4, example: e4 });
    HelpSection { title, items }
}

/// The fourth section of the syntax guide, over the first keyword of each parser
/// keyword list (`kw`) and the translated texts (`tx`).
pub open spec fn syntax_section_3(s: HelpSection, kw: Seq<Seq<char>>, tx: Seq<Seq<char>>) -> bool {
    &&& s.title@ == tx[34]
    &&& s.items@.len() == 3
    &&& s.items@[0].keys@ == kw[18] + "10"@ + kw[9]
    &&& s.items@[0].desc@ == tx[35]
    &&& s.items@[0].example@ == kw[18] + "15"@ + kw[9] + ", "@ + kw[18] + "2"@ + kw[10]
    &&& s.items@[1].keys@ == kw[18] + kw[19] + " 5"@ + kw[9]
    &&& s.items@[1].desc@ == tx[36]
    &&& s.items@[1].example@ == kw[18] + kw[19] + " 2"@ + kw[10]
    &&& s.items@[2].keys@ == kw[18] + "date"@
    &&& s.items@[2].desc@ == tx[37]
    &&& s.items@[2].example@ == kw[18] + "2025-01-20 9am, "@ + kw[18] + "friday"@
}

fn build_syntax_section_3(kwv: &Vec<String>, texts: &Vec<String>) -> (s: HelpSection)
    requires
        kwv@.len() == SYNTAX_KEYWORDS,
        texts@.len() == SYNTAX_TEXTS,
    ensures
        syntax_section_3(s, str_views(kwv@), str_views(texts@)),
{
    let title = texts[34].clone();
    let mut items: Vec<HelpItem> = Vec::new();
    let mut k0 = kwv[18].clone();
    k0.append("10");
    k0.append(kwv[9].as_str());
    let d0 = texts[35].clone();
    let mut e0 = kwv[18].clone();
    e0.append("15");
    e0.append(kwv[9].as_str());
    e0.append(", ");
    e0.append(kwv[18].as_str());
    e0.append("2");
    e0.append(kwv[10].as_str());
    items.push(HelpItem { keys: k0, desc: d0, example: e0 });
    let mut k1 = kwv[18].clone();
    k1.append(kwv[19].as_str());
    k1.append(" 5");
    k1.append(kwv[9].as_str());
    let d1 = texts[36].clone();
    let mut e1 = kwv[18].clone();
    e1.append(kwv[19].as_str());
    e1.append(" 2");
    e1.append(kwv[10].as_str());
    items.push(HelpItem { keys: k1, desc: d1, example: e1 });
    let mut k2 = kwv[18].clone();
    k2.append("date");
    let d2 = texts[37].clone();
    let mut e2 = kwv[18].clone();
    e2.append("2025-01-20 9am, ");
    e2.append(kwv[18].as_str());
    e2.append("friday");
    items.push(HelpItem { keys: k2, desc: d2, example: e2 });
    HelpSection { title, items }
}

/// The fifth section of the syntax guide, over the first keyword of each parser
/// keyword list (`kw`) and the translated texts (`tx`).
pub open spec fn syntax_section_4(s: HelpSection, kw: Seq<Seq<char>>, tx: Seq<Seq<char>>) -> bool {
    &&& s.title@ == tx[38]
    &&& s.items@.len() == 7
    &&& s.items@[0].keys@ == kw[20] + "uid / text"@
    &&& s.items@[0].desc@ == tx[39]
    &&& s.items@[0].example@ == kw[20] + "\""@ + tx[40] + "\" "@ + tx[41]
    &&& s.items@[1].keys@ == kw[21] + "uid / text"@
    &&& s.items@[1].desc@ == tx[42]
    &&& s.items@[1].example@ == kw[21] + "\""@ + tx[4] + "\""@
    &&& s.items@[2].keys@ == kw[22] + " or [[ ]]"@
    &&& s.items@[2].desc@ == tx[43]
    &&& s.items@[2].example@ == kw[22] + "https://perdu.com or [[https://perdu.com]]"@
    &&& s.items@[3].keys@ == "geo:"@
    &&& s.items@[3].desc@ == tx[44]
    &&& s.items@[3].example@ == "geo:50.1,4.2"@
    &&& s.items@[4].keys@ == kw[23]
    &&& s.items@[4].desc@ == tx[45]
    &&& s.items@[4].example@ == kw[23] + "\""@ + tx[46] + "\" "@ + tx[29] + " "@ + kw[23] + "{"@ + tx[46] + "}"@
    &&& s.items@[5].keys@ == "+cal / -cal"@
    &&& s.items@[5].desc@ == tx[47]
    &&& s.items@[5].example@ == tx[48] + " "@ + kw[0] + kw[1] + " +cal"@
    &&& s.items@[6].keys@ == "is:pinned"@
    &&& s.items@[6].desc@ == tx[49]
    &&& s.items@[6].example@ == tx[50] + " is:pinned"@
}

fn build_syntax_section_4(kwv: &Vec<String>, texts: &Vec<String>) -> (s: HelpSection)
    requires
        kwv@.len() == SYNTAX_KEYWORDS,
        texts@.len() == SYNTAX_TEXTS,
    ensures
        syntax_section_4(s, str_views(kwv@), str_views(texts@)),
{
    let title = texts[38].clone();
    let mut items: Vec<HelpItem> = Vec::new();
    let mut k0 = kwv[20].clone();
    k0.append("uid / text");
    let d0 = texts[39].clone();
    let mut e0 = kwv[20].clone();
    e0.append("\"");
    e0.append(texts[40].as_str());
    e0.append("\" ");
    e0.append(texts[41].as_str());
    items.push(HelpItem { keys: k0, desc: d0, example: e0 });
    let mut k1 = kwv[21].clone();
    k1.append("uid / text");
    let d1 = texts[42].clone();
    let mut e1 = kwv[21].clone();
    e1.append("\"");
    e1.append(texts[4].as_str());
    e1.append("\"");
    items.push(HelpItem { keys: k1, desc: d1, example: e1 });
    let mut k2 = kwv[22].clone();
    k2.append(" or [[ ]]");
    let d2 = texts[43].clone();
    let mut e2 = kwv[22].clone();
    e2.append("https://perdu.com or [[https://perdu.com]]");
    items.push(HelpItem { keys: k2, desc: d2, example: e2 });
    let k3 = String::from_str("geo:");
    let d3 = texts[44].clone();
    let e3 = String::from_str("geo:50.1,4.2");
    items.push(HelpItem { keys: k3, desc: d3, example: e3 });
    let k4 = kwv[23].clone();
    let d4 = texts[45].clone();
    let mut e4 = kwv[23].clone();
    e4.append("\"");
    e4.append(texts[46].as_str());
    e4.append("\" ");
    e4.append(texts[29].as_str());
    e4.append(" ");
    e4.append(kwv[23].as_str());
    e4.append("{");
    e4.append(texts[46].as_str());
    e4.append("}");
    items.push(HelpItem { keys: k4, desc: d4, example: e4 });
    let k5 = String::from_str("+cal / -cal");
    let d5 = texts[47].clone();
    let mut e5 = texts[48].clone();
    e5.append(" ");
    e5.append(kwv[0].as_str());
    e5.append(kwv[1].as_str());
    e5.append(" +cal");
    items.push(HelpItem { keys: k5, desc: d5, example: e5 });
    let k6 = String::from_str("is:pinned");
    let d6 = texts[49].clone();
    let mut e6 = texts[50].clone();
    e6.append(" is:pinned");
    items.push(HelpItem { keys: k6, desc: d6, example: e6 });
    HelpSection { title, items }
}

/// The sixth section of the syntax guide, over the first keyword of each parser
/// keyword list (`kw`) and the translated texts (`tx`).
pub open spec fn syntax_section_5(s: HelpSection, kw: Seq<Seq<char>>, tx: Seq<Seq<char>>) -> bool {
    &&& s.title@ == tx[51]
    &&& s.items@.len() == 6
    &&& s.items@[0].keys@ == "text"@
    &&& s.items@[0].desc@ == tx[52]
    &&& s.items@[0].example@ == tx[2]
    &&& s.items@[1].keys@ == tx[53]
    &&& s.items@[1].desc@ == tx[54]
    &&& s.items@[1].example@ == tx[53]
    &&& s.items@[2].keys@ == tx[55]
    &&& s.items@[2].desc@ == tx[56]
    &&& s.items@[2].example@ == tx[57] + ", "@ + tx[58] + ", ..."@
    &&& s.items@[3].keys@ == "< > <="@
    &&& s.items@[3].desc@ == tx[59]
    &&& s.items@[3].example@ == kw[8] + "<20"@ + kw[9] + ", !<4"@
    &&& s.items@[4].keys@ == "Dates"@
    &&& s.items@[4].desc@ == tx[60]
    &&& s.items@[4].example@ == kw[0] + "<"@ + kw[24] + ", "@ + kw[2] + ">1"@ + kw[4]
    &&& s.items@[5].keys@ == "(A | B) -C"@
    &&& s.items@[5].desc@ == tx[61]
    &&& s.items@[5].example@ == tx[53] + " (#work | #school) -"@ + kw[0] + kw[24]
}

fn build_syntax_section_5(kwv: &Vec<String>, texts: &Vec<String>) -> (s: HelpSection)
    requires
        kwv@.len() == SYNTAX_KEYWORDS,
        texts@.len() == SYNTAX_TEXTS,
    ensures
        syntax_section_5(s, str_views(kwv@), str_views(texts@)),
{
    let title = texts[51].clone();
    let mut items: Vec<HelpItem> = Vec::new();
    let k0 = String::from_str("text");
    let d0 = texts[52].clone();
    let e0 = texts[2].clone();
    items.push(HelpItem { keys: k0, desc: d0, example: e0 });
    let k1 = texts[53].clone();
    let d1 = texts[54].clone();
    let e1 = texts[53].clone();
    items.push(HelpItem { keys: k1, desc: d1, example: e1 });
    let k2 = texts[55].clone();
    let d2 = texts[56].clone();
    let mut e2 = texts[57].clone();
    e2.append(", ");
    e2.append(texts[58].as_str());
    e2.append(", ...");
    items.push(HelpItem { keys: k2, desc: d2, example: e2 });
    let k3 = String::from_str("< > <=");
    let d3 = texts[59].clone();
    let mut e3 = kwv[8].clone();
    e3.append("<20");
    e3.append(kwv[9].as_str());
    e3.append(", !<4");
    items.push(HelpItem { keys: k3, desc: d3, example: e3 });
    let k4 = String::from_str("Dates");
    let d4 = texts[60].clone();
    let mut e4 = kwv[0].clone();
    e4.append("<");
    e4.append(kwv[24].as_str());
    e4.append(", ");
    e4.append(kwv[2].as_str());
    e4.append(">1");
    e4.append(kwv[4].as_str());
    items.push(HelpItem { keys: k4, desc: d4, example: e4 });
    let k5 = String::from_str("(A | B) -C");
    let d5 = texts[61].clone();
    let mut e5 = texts[53].clone();
    e5.append(" (#work | #school) -");
    e5.append(kwv[0].as_str());
    e5.append(kwv[24].as_str());
    items.push(HelpItem { keys: k5, desc: d5, example: e5 });
    HelpSection { title, items }
}

/// The seventh section of the syntax guide, over the first keyword of each parser
/// keyword list (`kw`) and the translated texts (`tx`).
pub open spec fn syntax_section_6(s: HelpSection, kw: Seq<Seq<char>>, tx: Seq<Seq<char>>) -> bool {
    &&& s.title@ == tx[62]
    &&& s.items@.len() == 8
    &&& s.items@[0].keys@ == "#a:=#b,#c"@
    &&& s.items@[0].desc@ == tx[63]
    &&& s.items@[0].example@ == "#gardening:=#home:outside,"@ + kw[7] + "garden,!4"@
    &&& s.items@[1].keys@ == kw[7] + "a:=#b,"@ + kw[7] + "c"@
    &&& s.items@[1].desc@ == tx[64]
    &&& s.items@[1].example@ == kw[7] + "aldi:=#groceries,"@ + kw[7] + "shops:supermarkets"@
    &&& s.items@[2].keys@ == "\\#text"@
    &&& s.items@[2].desc@ == tx[65]
    &&& s.items@[2].example@ == "\\#not-a-tag"@
    &&& s.items@[3].keys@ == "- / is:note"@
    &&& s.items@[3].desc@ == tx[66]
    &&& s.items@[3].example@ == "- "@ + tx[67]
    &&& s.items@[4].keys@ == kw[25] + "date"@
    &&& s.items@[4].desc@ == tx[68]
    &&& s.items@[4].example@ == kw[25] + kw[26] + ", "@ + kw[25] + kw[27] + ", "@ + kw[25] + "2024-01-01 15:30"@
    &&& s.items@[5].keys@ == kw[25] + "X%"@
    &&& s.items@[5].desc@ == tx[69]
    &&& s.items@[5].example@ == kw[25] + "25%"@
    &&& s.items@[6].keys@ == kw[28] + " ("@ + tx[29] + " t / Shift+T)"@
    &&& s.items@[6].desc@ == tx[70]
    &&& s.items@[6].example@ == kw[28] + "30"@ + kw[9] + ", "@ + kw[28] + "thursday 1"@ + kw[10] + ", "@ + kw[28] + "14:00-15:30"@
    &&& s.items@[7].keys@ == kw[29]
    &&& s.items@[7].desc@ == tx[71]
    &&& s.items@[7].example@ == tx[72] + " "@ + kw[8] + "30"@ + kw[9] + "-3"@ + kw[10] + " "@ + kw[29]
}

fn build_syntax_section_6(kwv: &Vec<String>, texts: &Vec<String>) -> (s: HelpSection)
    requires
        kwv@.len() == SYNTAX_KEYWORDS,
        texts@.len() == SYNTAX_TEXTS,
    ensures
        syntax_section_6(s, str_views(kwv@), str_views(texts@)),
{
    let title = texts[62].clone();
    let mut items: Vec<HelpItem> = Vec::new();
    let k0 = String::from_str("#a:=#b,#c");
    let d0 = texts[63].clone();
    let mut e0 = String::from_str("#gardening:=#home:outside,");
    e0.append(kwv[7].as_str());
    e0.append("garden,!4");
    items.push(HelpItem { keys: k0, desc: d0, example: e0 });
    let mut k1 = kwv[7].clone();
    k1.append("a:=#b,");
    k1.append(kwv[7].as_str());
    k1.append("c");
    let d1 = texts[64].clone();
    let mut e1 = kwv[7].clone();
    e1.append("aldi:=#groceries,");
    e1.append(kwv[7].as_str());
    e1.append("shops:supermarkets");
    items.push(HelpItem { keys: k1, desc: d1, example: e1 });
    let k2 = String::from_str("\\#text");
    let d2 = texts[65].clone();
    let e2 = String::from_str("\\#not-a-tag");
    items.push(HelpItem { keys: k2, desc: d2, example: e2 });
    let k3 = String::from_str("- / is:note");
    let d3 = texts[66].clone();
    let mut e3 = String::from_str("- ");
    e3.append(texts[67].as_str());
    items.push(HelpItem { keys: k3, desc: d3, example: e3 });
    let mut k4 = kwv[25].clone();
    k4.append("date");
    let d4 = texts[68].clone();
    let mut e4 = kwv[25].clone();
    e4.append(kwv[26].as_str());
    e4.append(", ");
    e4.append(kwv[25].as_str());
    e4.append(kwv[27].as_str());
    e4.append(", ");
    e4.append(kwv[25].as_str());
    e4.append("2024-01-01 15:30");
    items.push(HelpItem { keys: k4, desc: d4, example: e4 });
    let mut k5 = kwv[25].clone();
    k5.append("X%");
    let d5 = texts[69].clone();
    let mut e5 = kwv[25].clone();
    e5.append("25%");
    items.push(HelpItem { keys: k5, desc: d5, example: e5 });
    let mut k6 = kwv[28].clone();
    k6.append(" (");
    k6.append(texts[29].as_str());
    k6.append(" t / Shift+T)");
    let d6 = texts[70].clone();
    let mut e6 = kwv[28].clone();
    e6.append("30");
    e6.append(kwv[9].as_str());
    e6.append(", ");
    e6.append(kwv[28].as_str());
    e6.append("thursday 1");
    e6.append(kwv[10].as_str());
    e6.append(", ");
    e6.append(kwv[28].as_str());
    e6.append("14:00-15:30");
    items.push(HelpItem { keys: k6, desc: d6, example: e6 });
    let k7 = kwv[29].clone();
    let d7 = texts[71].clone();
    let mut e7 = texts[72].clone();
    e7.append(" ");
    e7.append(kwv[8].as_str());
    e7.append("30");
    e7.append(kwv[9].as_str());
    e7.append("-3");
    e7.append(kwv[10].as_str());
    e7.append(" ");
    e7.append(kwv[29].as_str());
    items.push(HelpItem { keys: k7, desc: d7, example: e7 });
    HelpSection { title, items }
}

/// The eighth section of the syntax guide, over the first keyword of each parser
/// keyword list (`kw`) and the translated texts (`tx`).
pub open spec fn syntax_section_7(s: HelpSection, kw: Seq<Seq<char>>, tx: Seq<Seq<char>>) -> bool {
    &&& s.title@ == tx[73]
    &&& s.items@.len() == 4
    &&& s.items@[0].keys@ == kw[30] + "val/period"@
    &&& s.items@[0].desc@ == tx[74]
    &&& s.items@[0].example@ == tx[72] + " "@ + kw[30] + "4/"@ + kw[11] + ", "@ + tx[15] + " "@ + kw[8] + "1"@ + kw[10] + " "@ + kw[30] + "2"@ + kw[10] + "/"@ + kw[4]
    &&& s.items@[1].keys@ == "#tag:="@ + kw[30] + "val/period"@
    &&& s.items@[1].desc@ == tx[75]
    &&& s.items@[1].example@ == "#read:book:="@ + kw[30] + "5/"@ + kw[12] + ", "@ + kw[7] + "outside:="@ + kw[30] + "2"@ + kw[10] + "/"@ + kw[6]
    &&& s.items@[2].keys@ == tx[76]
    &&& s.items@[2].desc@ == tx[77]
    &&& s.items@[2].example@ == kw[30] + "weekly "@ + tx[29] + " "@ + kw[30] + "1/"@ + kw[4] + " ("@ + tx[78] + "), "@ + kw[30] + "30"@ + kw[9] + "/"@ + kw[6] + " ("@ + tx[79] + ")"@
    &&& s.items@[3].keys@ == tx[80]
    &&& s.items@[3].desc@ == tx[81]
    &&& s.items@[3].example@ == tx[82]
}

fn build_syntax_section_7(kwv: &Vec<String>, texts: &Vec<String>) -> (s: HelpSection)
    requires
        kwv@.len() == SYNTAX_KEYWORDS,
        texts@.len() == SYNTAX_TEXTS,
    ensures
        syntax_section_7(s, str_views(kwv@), str_views(texts@)),
{
    let title = texts[73].clone();
    let mut items: Vec<HelpItem> = Vec::new();
    let mut k0 = kwv[30].clone();
    k0.append("val/period");
    let d0 = texts[74].clone();
    let mut e0 = texts[72].clone();
    e0.append(" ");
    e0.append(kwv[30].as_str());
    e0.append("4/");
    e0.append(kwv[11].as_str());
    e0.append(", ");
    e0.append(texts[15].as_str());
    e0.append(" ");
    e0.append(kwv[8].as_str());
    e0.append("1");
    e0.append(kwv[10].as_str());
    e0.append(" ");
    e0.append(kwv[30].as_str());
    e0.append("2");
    e0.append(kwv[10].as_str());
    e0.append("/");
    e0.append(kwv[4].as_str());
    items.push(HelpItem { keys: k0, desc: d0, example: e0 });
    let mut k1 = String::from_str("#tag:=");
    k1.append(kwv[30].as_str());
    k1.append("val/period");
    let d1 = texts[75].clone();
    let mut e1 = String::from_str("#read:book:=");
    e1.append(kwv[30].as_str());
    e1.append("5/");
    e1.append(kwv[12].as_str());
    e1.append(", ");
    e1.append(kwv[7].as_str());
    e1.append("outside:=");
    e1.append(kwv[30].as_str());
    e1.append("2");
    e1.append(kwv[10].as_str());
    e1.append("/");
    e1.append(kwv[6].as_str());
    items.push(HelpItem { keys: k1, desc: d1, example: e1 });
    let k2 = texts[76].clone();
    let d2 = texts[77].clone();
    let mut e2 = kwv[30].clone();
    e2.append("weekly ");
    e2.append(texts[29].as_str());
    e2.append(" ");
    e2.append(kwv[30].as_str());
    e2.append("1/");
    e2.append(kwv[4].as_str());
    e2.append(" (");
    e2.append(texts[78].as_str());
    e2.append("), ");
    e2.append(kwv[30].as_str());
    e2.append("30");
    e2.append(kwv[9].as_str());
    e2.append("/");
    e2.append(kwv[6].as_str());
    e2.append(" (");
    e2.append(texts[79].as_str());
    e2.append(")");
    items.push(HelpItem { keys: k2, desc: d2, example: e2 });
    let k3 = texts[80].clone();
    let d3 = texts[81].clone();
    let e3 = texts[82].clone();
    items.push(HelpItem { keys: k3, desc: d3, example: e3 });
    HelpSection { title, items }
}

/// The ninth section of the syntax guide, over the first keyword of each parser
/// keyword list (`kw`) and the translated texts (`tx`).
pub open spec fn syntax_section_8(s: HelpSection, kw: Seq<Seq<char>>, tx: Seq<Seq<char>>) -> bool {
    &&& s.title@ == tx[83] + " (inside \u{f01c6})"@
    &&& s.items@.len() == 5
    &&& s.items@[0].keys@ == "text"@
    &&& s.items@[0].desc@ == tx[84]
    &&& s.items@[0].example@ == tx[85]
    &&& s.items@[1].keys@ == "- [ ]"@
    &&& s.items@[1].desc@ == tx[86]
    &&& s.items@[1].example@ == "- [ ] "@ + tx[11] + " "@ + kw[0] + kw[1] + " !1"@
    &&& s.items@[2].keys@ == "1. [ ]"@
    &&& s.items@[2].desc@ == tx[87]
    &&& s.items@[2].example@ == "2. [ ] "@ + tx[41] + " ("@ + tx[88] + ")"@
    &&& s.items@[3].keys@ == "  (indent)"@
    &&& s.items@[3].desc@ == tx[89]
    &&& s.items@[3].example@ == "  "@ + tx[90]
    &&& s.items@[4].keys@ == tx[91]
    &&& s.items@[4].desc@ == tx[92]
    &&& s.items@[4].example@ == Seq::<char>::empty()
}

fn build_syntax_section_8(kwv: &Vec<String>, texts: &Vec<String>) -> (s: HelpSection)
    requires
        kwv@.len() == SYNTAX_KEYWORDS,
        texts@.len() == SYNTAX_TEXTS,
    ensures
        syntax_section_8(s, str_views(kwv@), str_views(texts@)),
{
    let mut title = texts[83].clone();
    title.append(" (inside \u{f01c6})");
    let mut items: Vec<HelpItem> = Vec::new();
    let k0 = String::from_str("text");
    let d0 = texts[84].clone();
    let e0 = texts[85].clone();
    items.push(HelpItem { keys: k0, desc: d0, example: e0 });
    let k1 = String::from_str("- [ ]");
    let d1 = texts[86].clone();
    let mut e1 = String::from_str("- [ ] ");
    e1.append(texts[11].as_str());
    e1.append(" ");
    e1.append(kwv[0].as_str());
    e1.append(kwv[1].as_str());
    e1.append(" !1");
    items.push(HelpItem { keys: k1, desc: d1, example: e1 });
    let k2 = String::from_str("1. [ ]");
    let d2 = texts[87].clone();
    let mut e2 = String::from_str("2. [ ] ");
    e2.append(texts[41].as_str());
    e2.append(" (");
    e2.append(texts[88].as_str());
    e2.append(")");
    items.push(HelpItem { keys: k2, desc: d2, example: e2 });
    let k3 = String::from_str("  (indent)");
    let d3 = texts[89].clone();
    let mut e3 = String::from_str("  ");
    e3.append(texts[90].as_str());
    items.push(HelpItem { keys: k3, desc: d3, example: e3 });
    let k4 = texts[91].clone();
    let d4 = texts[92].clone();
    let e4 = String::new();
    items.push(HelpItem { keys: k4, desc: d4, example: e4 });
    HelpSection { title, items }
}

/// How many translated texts the shortcut cheat sheet is built from.
pub const SHORTCUT_TEXTS: usize = 33;

/// The first section of the shortcut cheat sheet: navigation, with the zoom and settings
/// shortcuts only in the desktop application.
pub open spec fn shortcut_section_0(s: HelpSection, tx: Seq<Seq<char>>, is_gui: bool) -> bool {
    &&& s.title@ == "Navigation & general"@
    &&& if is_gui {
        &&& s.items@.len() == 8
        &&& s.items@[0].keys@ == "?"@
        &&& s.items@[0].desc@ == tx[0]
        &&& s.items@[0].example@ == Seq::<char>::empty()
        &&& s.items@[1].keys@ == "Tab"@
        &&& s.items@[1].desc@ == tx[1]
        &&& s.items@[1].example@ == Seq::<char>::empty()
        &&& s.items@[2].keys@ == "j / k / Dn / Up"@
        &&& s.items@[2].desc@ == tx[2]
        &&& s.items@[2].example@ == Seq::<char>::empty()
        &&& s.items@[3].keys@ == "PgDn / PgUp"@
        &&& s.items@[3].desc@ == tx[3]
        &&& s.items@[3].example@ == Seq::<char>::empty()
        &&& s.items@[4].keys@ == "Ctrl + / - / 0"@
        &&& s.items@[4].desc@ == tx[4]
        &&& s.items@[4].example@ == tx[5]
        &&& s.items@[5].keys@ == "z"@
        &&& s.items@[5].desc@ == "Fold / Unfold Task Tree"@
        &&& s.items@[5].example@ == Seq::<char>::empty()
        &&& s.items@[6].keys@ == "Shift + r"@
        &&& s.items@[6].desc@ == tx[6]
        &&& s.items@[6].example@ == Seq::<char>::empty()
        &&& s.items@[7].keys@ == "Ctrl + ,"@
        &&& s.items@[7].desc@ == tx[7]
        &&& s.items@[7].example@ == Seq::<char>::empty()
    } else {
        &&& s.items@.len() == 6
        &&& s.items@[0].keys@ == "?"@
        &&& s.items@[0].desc@ == tx[0]
        &&& s.items@[0].example@ == Seq::<char>::empty()
        &&& s.items@[1].keys@ == "Tab"@
        &&& s.items@[1].desc@ == tx[1]
        &&& s.items@[1].example@ == Seq::<char>::empty()
        &&& s.items@[2].keys@ == "j / k / Dn / Up"@
        &&& s.items@[2].desc@ == tx[2]
        &&& s.items@[2].example@ == Seq::<char>::empty()
        &&& s.items@[3].keys@ == "PgDn / PgUp"@
        &&& s.items@[3].desc@ == tx[3]
        &&& s.items@[3].example@ == Seq::<char>::empty()
        &&& s.items@[4].keys@ == "z"@
        &&& s.items@[4].desc@ == "Fold / Unfold Task Tree"@
        &&& s.items@[4].example@ == Seq::<char>::empty()
        &&& s.items@[5].keys@ == "Shift + r"@
        &&& s.items@[5].desc@ == tx[6]
        &&& s.items@[5].example@ == Seq::<char>::empty()
    }
}

fn build_shortcut_section_0(texts: &Vec<String>, is_gui: bool) -> (s: HelpSection)
    requires
        texts@.len() == SHORTCUT_TEXTS,
    ensures
        shortcut_section_0(s, str_views(texts@), is_gui),
{
    let title = String::from_str("Navigation & general");
    if is_gui {
        let mut items: Vec<HelpItem> = Vec::new();
        let k0 = String::from_str("?");
        let d0 = texts[0].clone();
        let e0 = String::new();
        items.push(HelpItem { keys: k0, desc: d0, example: e0 });
        let k1 = String::from_str("Tab");
        let d1 = texts[1].clone();
        let e1 = String::new();
        items.push(HelpItem { keys: k1, desc: d1, example: e1 });
        let k2 = String::from_str("j / k / Dn / Up");
        let d2 = texts[2].clone();
        let e2 = String::new();
        items.push(HelpItem { keys: k2, desc: d2, example: e2 });
        let k3 = String::from_str("PgDn / PgUp");
        let d3 = texts[3].clone();
        let e3 = String::new();
        items.push(HelpItem { keys: k3, desc: d3, example: e3 });
        let k4 = String::from_str("Ctrl + / - / 0");
        let d4 = texts[4].clone();
        let e4 = texts[5].clone();
        items.push(HelpItem { keys: k4, desc: d4, example: e4 });
        let k5 = String::from_str("z");
        let d5 = String::from_str("Fold / Unfold Task Tree");
        let e5 = String::new();
        items.push(HelpItem { keys: k5, desc: d5, example: e5 });
        let k6 = String::from_str("Shift + r");
        let d6 = texts[6].clone();
        let e6 = String::new();
        items.push(HelpItem { keys: k6, desc: d6, example: e6 });
        let k7 = String::from_str("Ctrl + ,");
        let d7 = texts[7].clone();
        let e7 = String::new();
        items.push(HelpItem { keys: k7, desc: d7, example: e7 });
        HelpSection { title, items }
    } else {
        let mut items: Vec<HelpItem> = Vec::new();
        let k0 = String::from_str("?");
        let d0 = texts[0].clone();
        let e0 = String::new();
        items.push(HelpItem { keys: k0, desc: d0, example: e0 });
        let k1 = String::from_str("Tab");
        let d1 = texts[1].clone();
        let e1 = String::new();
        items.push(HelpItem { keys: k1, desc: d1, example: e1 });
        let k2 = String::from_str("j / k / Dn / Up");
        let d2 = texts[2].clone();
        let e2 = String::new();
        items.push(HelpItem { keys: k2, desc: d2, example: e2 });
        let k3 = String::from_str("PgDn / PgUp");
        let d3 = texts[3].clone();
        let e3 = String::new();
        items.push(HelpItem { keys: k3, desc: d3, example: e3 });
        let k4 = String::from_str("z");
        let d4 = String::from_str("Fold / Unfold Task Tree");
        let e4 = String::new();
        items.push(HelpItem { keys: k4, desc: d4, example: e4 });
        let k5 = String::from_str("Shift + r");
        let d5 = texts[6].clone();
        let e5 = String::new();
        items.push(HelpItem { keys: k5, desc: d5, example: e5 });
        HelpSection { title, items }
    }
}

/// Section 2 of the shortcut cheat sheet, over the translated texts (`tx`).
pub open spec fn shortcut_section_1(s: HelpSection, tx: Seq<Seq<char>>) -> bool {
    &&& s.title@ == tx[8]
    &&& s.items@.len() == 17
    &&& s.items@[0].keys@ == "a"@
    &&& s.items@[0].desc@ == tx[9]
    &&& s.items@[0].example@ == Seq::<char>::empty()
    &&& s.items@[1].keys@ == "Ctrl + n"@
    &&& s.items@[1].desc@ == tx[10]
    &&& s.items@[1].example@ == Seq::<char>::empty()
    &&& s.items@[2].keys@ == "e / E"@
    &&& s.items@[2].desc@ == "Edit Title / Edit Description"@
    &&& s.items@[2].example@ == Seq::<char>::empty()
    &&& s.items@[3].keys@ == "Ctrl + e"@
    &&& s.items@[3].desc@ == "Edit tree (Markdown)"@
    &&& s.items@[3].example@ == Seq::<char>::empty()
    &&& s.items@[4].keys@ == "Space"@
    &&& s.items@[4].desc@ == tx[11]
    &&& s.items@[4].example@ == Seq::<char>::empty()
    &&& s.items@[5].keys@ == "Shift + Space"@
    &&& s.items@[5].desc@ == "Complete & shift schedule to today"@
    &&& s.items@[5].example@ == Seq::<char>::empty()
    &&& s.items@[6].keys@ == "s / S"@
    &&& s.items@[6].desc@ == tx[12]
    &&& s.items@[6].example@ == Seq::<char>::empty()
    &&& s.items@[7].keys@ == "x"@
    &&& s.items@[7].desc@ == tx[13]
    &&& s.items@[7].example@ == Seq::<char>::empty()
    &&& s.items@[8].keys@ == "Del"@
    &&& s.items@[8].desc@ == tx[14]
    &&& s.items@[8].example@ == Seq::<char>::empty()
    &&& s.items@[9].keys@ == "Ctrl + Del"@
    &&& s.items@[9].desc@ == tx[15]
    &&& s.items@[9].example@ == Seq::<char>::empty()
    &&& s.items@[10].keys@ == "Ctrl + d"@
    &&& s.items@[10].desc@ == tx[16]
    &&& s.items@[10].example@ == Seq::<char>::empty()
    &&& s.items@[11].keys@ == "t"@
    &&& s.items@[11].desc@ == tx[17]
    &&& s.items@[11].example@ == Seq::<char>::empty()
    &&& s.items@[12].keys@ == "Shift + t"@
    &&& s.items@[12].desc@ == tx[18]
    &&& s.items@[12].example@ == Seq::<char>::empty()
    &&& s.items@[13].keys@ == "+ / -"@
    &&& s.items@[13].desc@ == tx[19]
    &&& s.items@[13].example@ == Seq::<char>::empty()
    &&& s.items@[14].keys@ == "M"@
    &&& s.items@[14].desc@ == tx[20]
    &&& s.items@[14].example@ == Seq::<char>::empty()
    &&& s.items@[15].keys@ == "g"@
    &&& s.items@[15].desc@ == tx[21] + "/ "@ + tx[22]
    &&& s.items@[15].example@ == Seq::<char>::empty()
    &&& s.items@[16].keys@ == "o"@
    &&& s.items@[16].desc@ == tx[23]
    &&& s.items@[16].example@ == Seq::<char>::empty()
}

fn build_shortcut_section_1(texts: &Vec<String>) -> (s: HelpSection)
    requires
        texts@.len() == SHORTCUT_TEXTS,
    ensures
        shortcut_section_1(s, str_views(texts@)),
{
    let title = texts[8].clone();
    let mut items: Vec<HelpItem> = Vec::new();
    let k0 = String::from_str("a");
    let d0 = texts[9].clone();
    let e0 = String::new();
    items.push(HelpItem { keys: k0, desc: d0, example: e0 });
    let k1 = String::from_str("Ctrl + n");
    let d1 = texts[10].clone();
    let e1 = String::new();
    items.push(HelpItem { keys: k1, desc: d1, example: e1 });
    let k2 = String::from_str("e / E");
    let d2 = String::from_str("Edit Title / Edit Description");
    let e2 = String::new();
    items.push(HelpItem { keys: k2, desc: d2, example: e2 });
    let k3 = String::from_str("Ctrl + e");
    let d3 = String::from_str("Edit tree (Markdown)");
    let e3 = String::new();
    items.push(HelpItem { keys: k3, desc: d3, example: e3 });
    let k4 = String::from_str("Space");
    let d4 = texts[11].clone();
    let e4 = String::new();
    items.push(HelpItem { keys: k4, desc: d4, example: e4 });
    let k5 = String::from_str("Shift + Space");
    let d5 = String::from_str("Complete & shift schedule to today");
    let e5 = String::new();
    items.push(HelpItem { keys: k5, desc: d5, example: e5 });
    let k6 = String::from_str("s / S");
    let d6 = texts[12].clone();
    let e6 = String::new();
    items.push(HelpItem { keys: k6, desc: d6, example: e6 });
    let k7 = String::from_str("x");
    let d7 = texts[13].clone();
    let e7 = String::new();
    items.push(HelpItem { keys: k7, desc: d7, example: e7 });
    let k8 = String::from_str("Del");
    let d8 = texts[14].clone();
    let e8 = String::new();
    items.push(HelpItem { keys: k8, desc: d8, example: e8 });
    let k9 = String::from_str("Ctrl + Del");
    let d9 = texts[15].clone();
    let e9 = String::new();
    items.push(HelpItem { keys: k9, desc: d9, example: e9 });
    let k10 = String::from_str("Ctrl + d");
    let d10 = texts[16].clone();
    let e10 = String::new();
    items.push(HelpItem { keys: k10, desc: d10, example: e10 });
    let k11 = String::from_str("t");
    let d11 = texts[17].clone();
    let e11 = String::new();
    items.push(HelpItem { keys: k11, desc: d11, example: e11 });
    let k12 = String::from_str("Shift + t");
    let d12 = texts[18].clone();
    let e12 = String::new();
    items.push(HelpItem { keys: k12, desc: d12, example: e12 });
    let k13 = String::from_str("+ / -");
    let d13 = texts[19].clone();
    let e13 = String::new();
    items.push(HelpItem { keys: k13, desc: d13, example: e13 });
    let k14 = String::from_str("M");
    let d14 = texts[20].clone();
    let e14 = String::new();
    items.push(HelpItem { keys: k14, desc: d14, example: e14 });
    let k15 = String::from_str("g");
    let mut d15 = texts[21].clone();
    d15.append("/ ");
    d15.append(texts[22].as_str());
    let e15 = String::new();
    items.push(HelpItem { keys: k15, desc: d15, example: e15 });
    let k16 = String::from_str("o");
    let d16 = texts[23].clone();
    let e16 = String::new();
    items.push(HelpItem { keys: k16, desc: d16, example: e16 });
    HelpSection { title, items }
}

/// Section 3 of the shortcut cheat sheet, over the translated texts (`tx`).
pub open spec fn shortcut_section_2(s: HelpSection, tx: Seq<Seq<char>>) -> bool {
    &&& s.title@ == tx[24]
    &&& s.items@.len() == 7
    &&& s.items@[0].keys@ == "y"@
    &&& s.items@[0].desc@ == tx[25]
    &&& s.items@[0].example@ == Seq::<char>::empty()
    &&& s.items@[1].keys@ == "b / c / l"@
    &&& s.items@[1].desc@ == "Selected is Blocked by / Child of / Related to Yanked"@
    &&& s.items@[1].example@ == Seq::<char>::empty()
    &&& s.items@[2].keys@ == "C"@
    &&& s.items@[2].desc@ == "Create Subtask"@
    &&& s.items@[2].example@ == Seq::<char>::empty()
    &&& s.items@[3].keys@ == "Y"@
    &&& s.items@[3].desc@ == "Toggle Yank Lock (keep yanked task)"@
    &&& s.items@[3].example@ == Seq::<char>::empty()
    &&& s.items@[4].keys@ == "> / <"@
    &&& s.items@[4].desc@ == "Indent / Outdent Task"@
    &&& s.items@[4].example@ == Seq::<char>::empty()
    &&& s.items@[5].keys@ == "L"@
    &&& s.items@[5].desc@ == "Browse relationships / Toggle details"@
    &&& s.items@[5].example@ == Seq::<char>::empty()
    &&& s.items@[6].keys@ == "Enter"@
    &&& s.items@[6].desc@ == "Action Menu / Context Menu"@
    &&& s.items@[6].example@ == Seq::<char>::empty()
}

fn build_shortcut_section_2(texts: &Vec<String>) -> (s: HelpSection)
    requires
        texts@.len() == SHORTCUT_TEXTS,
    ensures
        shortcut_section_2(s, str_views(texts@)),
{
    let title = texts[24].clone();
    let mut items: Vec<HelpItem> = Vec::new();
    let k0 = String::from_str("y");
    let d0 = texts[25].clone();
    let e0 = String::new();
    items.push(HelpItem { keys: k0, desc: d0, example: e0 });
    let k1 = String::from_str("b / c / l");
    let d1 = String::from_str("Selected is Blocked by / Child of / Related to Yanked");
    let e1 = String::new();
    items.push(HelpItem { keys: k1, desc: d1, example: e1 });
    let k2 = String::from_str("C");
    let d2 = String::from_str("Create Subtask");
    let e2 = String::new();
    items.push(HelpItem { keys: k2, desc: d2, example: e2 });
    let k3 = String::from_str("Y");
    let d3 = String::from_str("Toggle Yank Lock (keep yanked task)");
    let e3 = String::new();
    items.push(HelpItem { keys: k3, desc: d3, example: e3 });
    let k4 = String::from_str("> / <");
    let d4 = String::from_str("Indent / Outdent Task");
    let e4 = String::new();
    items.push(HelpItem { keys: k4, desc: d4, example: e4 });
    let k5 = String::from_str("L");
    let d5 = String::from_str("Browse relationships / Toggle details");
    let e5 = String::new();
    items.push(HelpItem { keys: k5, desc: d5, example: e5 });
    let k6 = String::from_str("Enter");
    let d6 = String::from_str("Action Menu / Context Menu");
    let e6 = String::new();
    items.push(HelpItem { keys: k6, desc: d6, example: e6 });
    HelpSection { title, items }
}

/// Section 4 of the shortcut cheat sheet, over the translated texts (`tx`).
pub open spec fn shortcut_section_3(s: HelpSection, tx: Seq<Seq<char>>) -> bool {
    &&& s.title@ == tx[26]
    &&& s.items@.len() == 7
    &&& s.items@[0].keys@ == "/"@
    &&& s.items@[0].desc@ == tx[27]
    &&& s.items@[0].example@ == Seq::<char>::empty()
    &&& s.items@[1].keys@ == "1, 2, 3, 4"@
    &&& s.items@[1].desc@ == tx[28]
    &&& s.items@[1].example@ == Seq::<char>::empty()
    &&& s.items@[2].keys@ == "m"@
    &&& s.items@[2].desc@ == tx[29]
    &&& s.items@[2].example@ == Seq::<char>::empty()
    &&& s.items@[3].keys@ == "H"@
    &&& s.items@[3].desc@ == tx[30]
    &&& s.items@[3].example@ == Seq::<char>::empty()
    &&& s.items@[4].keys@ == "*"@
    &&& s.items@[4].desc@ == tx[31]
    &&& s.items@[4].example@ == Seq::<char>::empty()
    &&& s.items@[5].keys@ == "Right"@
    &&& s.items@[5].desc@ == tx[32]
    &&& s.items@[5].example@ == Seq::<char>::empty()
    &&& s.items@[6].keys@ == "w"@
    &&& s.items@[6].desc@ == "Toggle Quick Filter (is:ready)"@
    &&& s.items@[6].example@ == Seq::<char>::empty()
}

fn build_shortcut_section_3(texts: &Vec<String>) -> (s: HelpSection)
    requires
        texts@.len() == SHORTCUT_TEXTS,
    ensures
        shortcut_section_3(s, str_views(texts@)),
{
    let title = texts[26].clone();
    let mut items: Vec<HelpItem> = Vec::new();
    let k0 = String::from_str("/");
    let d0 = texts[27].clone();
    let e0 = String::new();
    items.push(HelpItem { keys: k0, desc: d0, example: e0 });
    let k1 = String::from_str("1, 2, 3, 4");
    let d1 = texts[28].clone();
    let e1 = String::new();
    items.push(HelpItem { keys: k1, desc: d1, example: e1 });
    let k2 = String::from_str("m");
    let d2 = texts[29].clone();
    let e2 = String::new();
    items.push(HelpItem { keys: k2, desc: d2, example: e2 });
    let k3 = String::from_str("H");
    let d3 = texts[30].clone();
    let e3 = String::new();
    items.push(HelpItem { keys: k3, desc: d3, example: e3 });
    let k4 = String::from_str("*");
    let d4 = texts[31].clone();
    let e4 = String::new();
    items.push(HelpItem { keys: k4, desc: d4, example: e4 });
    let k5 = String::from_str("Right");
    let d5 = texts[32].clone();
    let e5 = String::new();
    items.push(HelpItem { keys: k5, desc: d5, example: e5 });
    let k6 = String::from_str("w");
    let d6 = String::from_str("Toggle Quick Filter (is:ready)");
    let e6 = String::new();
    items.push(HelpItem { keys: k6, desc: d6, example: e6 });
    HelpSection { title, items }
}


/// The first keyword of each of the parser's keyword lists.
pub open spec fn keyword_words(lists: Seq<String>) -> Seq<Seq<char>> {
    lists.map_values(|l: String| trimmed(split_pieces(l@, ',')[0]))
}

/// The syntax guide: nine sections of syntax, each line with its keys, what it does and an
/// example. It is built from the parser's keyword lists (only their first keyword is shown)
/// and the translated texts, in the orders the guide takes them.
pub fn get_syntax_help(keywords: &Vec<String>, texts: &Vec<String>) -> (r: Vec<HelpSection>)
    requires
        keywords@.len() == SYNTAX_KEYWORDS,
        texts@.len() == SYNTAX_TEXTS,
    ensures
        r@.len() == 9,
        syntax_section_0(r@[0], keyword_words(keywords@), str_views(texts@)),
        syntax_section_1(r@[1], keyword_words(keywords@), str_views(texts@)),
        syntax_section_2(r@[2], keyword_words(keywords@), str_views(texts@)),
        syntax_section_3(r@[3], keyword_words(keywords@), str_views(texts@)),
        syntax_section_4(r@[4], keyword_words(keywords@), str_views(texts@)),
        syntax_section_5(r@[5], keyword_words(keywords@), str_views(texts@)),
        syntax_section_6(r@[6], keyword_words(keywords@), str_views(texts@)),
        syntax_section_7(r@[7], keyword_words(keywords@), str_views(texts@)),
        syntax_section_8(r@[8], keyword_words(keywords@), str_views(texts@)),
{
    let mut kwv: Vec<String> = Vec::new();
    let mut i: usize = 0;
    while i < keywords.len()
        invariant
            i <= keywords@.len(),
            kwv@.len() == i,
            forall|j: int| 0 <= j < i ==> (#[trigger] kwv@[j])@ == trimmed(split_pieces(keywords@[j]@, ',')[0]),
        decreases keywords@.len() - i,
    {
        kwv.push(first_keyword(keywords[i].as_str()));
        i = i + 1;
    }
    assert(str_views(kwv@) =~= keyword_words(keywords@));
    let mut r: Vec<HelpSection> = Vec::new();
    r.push(build_syntax_section_0(&kwv, texts));
    r.push(build_syntax_section_1(&kwv, texts));
    r.push(build_syntax_section_2(&kwv, texts));
    r.push(build_syntax_section_3(&kwv, texts));
    r.push(build_syntax_section_4(&kwv, texts));
    r.push(build_syntax_section_5(&kwv, texts));
    r.push(build_syntax_section_6(&kwv, texts));
    r.push(build_syntax_section_7(&kwv, texts));
    r.push(build_syntax_section_8(&kwv, texts));
    r
}

/// The keyboard shortcut cheat sheet: navigation (with zooming and the settings shortcut in
/// the desktop application only), editing, relations, and search and filtering. Its
/// descriptions come from the translated texts, in the order the sheet takes them.
pub fn get_shortcuts_help(is_gui: bool, texts: &Vec<String>) -> (r: Vec<HelpSection>)
    requires
        texts@.len() == SHORTCUT_TEXTS,
    ensures
        r@.len() == 4,
        shortcut_section_0(r@[0], str_views(texts@), is_gui),
        shortcut_section_1(r@[1], str_views(texts@)),
        shortcut_section_2(r@[2], str_views(texts@)),
        shortcut_section_3(r@[3], str_views(texts@)),
{
    let mut r: Vec<HelpSection> = Vec::new();
    r.push(build_shortcut_section_0(texts, is_gui));
    r.push(build_shortcut_section_1(texts));
    r.push(build_shortcut_section_2(texts));
    r.push(build_shortcut_section_3(texts));
    r
}

} // verus!
