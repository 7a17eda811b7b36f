//! What a browse page is made of.
use vstd::prelude::*;

use crate::text::{opt_text, texts};

verus! {

/// How an action is sent.
#[derive(Debug, Clone, Copy, PartialEq, Eq, Structural)]
pub enum UiActionMethod {
    Put,
    Delete,
}

/// Something a visitor may do.
pub struct UiAction {
    pub label: String,
    pub method: UiActionMethod,
    pub endpoint: String,
    pub destructive: bool,
}

/// An action, its text seen as characters.
pub struct ActionText {
    pub label: Seq<char>,
    pub method: UiActionMethod,
    pub endpoint: Seq<char>,
    pub destructive: bool,
}

impl UiAction {
    pub open spec fn view(self) -> ActionText {
        ActionText {
            label: self.label@,
            method: self.method,
            endpoint: self.endpoint@,
            destructive: self.destructive,
        }
    }

    pub fn copied(&self) -> (r: Self)
        ensures
            r@ == self@,
    {
        UiAction {
            label: self.label.clone(),
            method: self.method,
            endpoint: self.endpoint.clone(),
            destructive: self.destructive,
        }
    }
}

/// The actions as texts.
pub open spec fn action_texts(actions: Seq<UiAction>) -> Seq<ActionText> {
    actions.map_values(|a: UiAction| a@)
}

/// Copy a list of actions.
pub fn copy_actions(actions: &Vec<UiAction>) -> (r: Vec<UiAction>)
    ensures
        action_texts(r@) == action_texts(actions@),
{
    let mut out: Vec<UiAction> = Vec::new();
    let mut i: usize = 0;
    while i < actions.len()
        invariant
            i <= actions@.len(),
            out@.len() == i,
            forall|j: int| 0 <= j < i ==> (#[trigger] out@[j])@ == actions@[j]@,
        decreases actions.len() - i,
    {
        out.push(actions[i].copied());
        i = i + 1;
    }
    assert(action_texts(out@) =~= action_texts(actions@));
    out
}

/// A mark on a page or a row.
pub struct BrowseBadge {
    pub label: String,
    pub class: String,
    pub hint: Option<String>,
}

/// A badge, its text seen as characters.
pub struct BadgeText {
    pub label: Seq<char>,
    pub class: Seq<char>,
    pub hint: Option<Seq<char>>,
}

impl BrowseBadge {
    pub open spec fn view(self) -> BadgeText {
        BadgeText { label: self.label@, class: self.class@, hint: opt_text(self.hint) }
    }
}

/// The badges as texts.
pub open spec fn badge_texts(badges: Seq<BrowseBadge>) -> Seq<BadgeText> {
    badges.map_values(|b: BrowseBadge| b@)
}

/// A link.
pub struct BrowseLink {
    pub label: String,
    pub href: String,
}

/// A link, its text seen as characters.
pub struct LinkText {
    pub label: Seq<char>,
    pub href: Seq<char>,
}

impl BrowseLink {
    pub open spec fn view(self) -> LinkText {
        LinkText { label: self.label@, href: self.href@ }
    }
}

/// The links as texts.
pub open spec fn link_texts(links: Seq<BrowseLink>) -> Seq<LinkText> {
    links.map_values(|l: BrowseLink| l@)
}

/// A property.
pub struct BrowseProperty {
    pub label: String,
    pub value: String,
    pub href: Option<String>,
}

/// A property, its text seen as characters.
pub struct PropertyText {
    pub label: Seq<char>,
    pub value: Seq<char>,
    pub href: Option<Seq<char>>,
}

impl BrowseProperty {
    pub open spec fn view(self) -> PropertyText {
        PropertyText { label: self.label@, value: self.value@, href: opt_text(self.href) }
    }
}

/// The properties as texts.
pub open spec fn property_texts(properties: Seq<BrowseProperty>) -> Seq<PropertyText> {
    properties.map_values(|p: BrowseProperty| p@)
}

/// A cell of a table.
pub struct BrowseCell {
    pub text: String,
    pub href: Option<String>,
    pub code: bool,
}

/// A cell, its text seen as characters.
pub struct CellText {
    pub text: Seq<char>,
    pub href: Option<Seq<char>>,
    pub code: bool,
}

impl BrowseCell {
    pub open spec fn view(self) -> CellText {
        CellText { text: self.text@, href: opt_text(self.href), code: self.code }
    }
}

/// The cells as texts.
pub open spec fn cell_texts(cells: Seq<BrowseCell>) -> Seq<CellText> {
    cells.map_values(|c: BrowseCell| c@)
}

/// A row of a table.
pub struct BrowseRow {
    pub cells: Vec<BrowseCell>,
    pub badges: Vec<BrowseBadge>,
    pub actions: Vec<UiAction>,
}

/// A row, its text seen as characters.
pub struct RowText {
    pub cells: Seq<CellText>,
    pub badges: Seq<BadgeText>,
    pub actions: Seq<ActionText>,
}

impl BrowseRow {
    pub open spec fn view(self) -> RowText {
        RowText {
            cells: cell_texts(self.cells@),
            badges: badge_texts(self.badges@),
            actions: action_texts(self.actions@),
        }
    }
}

/// The rows as texts.
pub open spec fn row_texts(rows: Seq<BrowseRow>) -> Seq<RowText> {
    rows.map_values(|r: BrowseRow| r@)
}

/// A section of a page.
pub enum BrowseSection {
    Links { heading: String, links: Vec<BrowseLink>, empty: String },
    Properties { heading: String, properties: Vec<BrowseProperty> },
    Table { heading: String, columns: Vec<String>, rows: Vec<BrowseRow>, empty: String },
    Markup { heading: String, html: String, notice: Option<String> },
    Content { heading: String, text: String, size: Option<u64>, offset: u64, next: Option<BrowseLink> },
}

/// A section, its text seen as characters.
pub enum SectionText {
    Links { heading: Seq<char>, links: Seq<LinkText>, empty: Seq<char> },
    Properties { heading: Seq<char>, properties: Seq<PropertyText> },
    Table { heading: Seq<char>, columns: Seq<Seq<char>>, rows: Seq<RowText>, empty: Seq<char> },
    Markup { heading: Seq<char>, html: Seq<char>, notice: Option<Seq<char>> },
    Content { heading: Seq<char>, text: Seq<char>, size: Option<u64>, offset: u64, next: Option<LinkText> },
}

impl BrowseSection {
    pub open spec fn view(self) -> SectionText {
        match self {
            BrowseSection::Links { heading, links, empty } => SectionText::Links {
                heading: heading@,
                links: link_texts(links@),
                empty: empty@,
            },
            BrowseSection::Properties { heading, properties } => SectionText::Properties {
                heading: heading@,
                properties: property_texts(properties@),
            },
            BrowseSection::Table { heading, columns, rows, empty } => SectionText::Table {
                heading: heading@,
                columns: texts(columns@),
                rows: row_texts(rows@),
                empty: empty@,
            },
            BrowseSection::Markup { heading, html, notice } => SectionText::Markup {
                heading: heading@,
                html: html@,
                notice: opt_text(notice),
            },
            BrowseSection::Content { heading, text, size, offset, next } => SectionText::Content {
                heading: heading@,
                text: text@,
                size,
                offset,
                next: match next {
                    Some(link) => Some(link@),
                    None => None,
                },
            },
        }
    }
}

/// The sections as texts.
pub open spec fn section_texts(sections: Seq<BrowseSection>) -> Seq<SectionText> {
    sections.map_values(|s: BrowseSection| s@)
}

/// A page.
pub struct BrowsePage {
    pub breadcrumbs: Vec<BrowseLink>,
    pub title: String,
    pub subtitle: Option<String>,
    pub summary: Option<String>,
    pub command: Option<String>,
    pub badges: Vec<BrowseBadge>,
    pub sections: Vec<BrowseSection>,
    pub actions: Vec<UiAction>,
}

/// A page, its text seen as characters.
pub struct PageText {
    pub breadcrumbs: Seq<LinkText>,
    pub title: Seq<char>,
    pub subtitle: Option<Seq<char>>,
    pub summary: Option<Seq<char>>,
    pub command: Option<Seq<char>>,
    pub badges: Seq<BadgeText>,
    pub sections: Seq<SectionText>,
    pub actions: Seq<ActionText>,
}

impl BrowsePage {
    pub open spec fn view(self) -> PageText {
        PageText {
            breadcrumbs: link_texts(self.breadcrumbs@),
            title: self.title@,
            subtitle: opt_text(self.subtitle),
            summary: opt_text(self.summary),
            command: opt_text(self.command),
            badges: badge_texts(self.badges@),
            sections: section_texts(self.sections@),
            actions: action_texts(self.actions@),
        }
    }

    /// A page of a title and one section, under some breadcrumbs.
    pub fn titled(breadcrumbs: Vec<BrowseLink>, title: String, section: BrowseSection) -> (r: Self)
        ensures
            r@ == titled_page(link_texts(breadcrumbs@), title@, section@),
    {
        let mut sections: Vec<BrowseSection> = Vec::new();
        sections.push(section);
        let r = BrowsePage {
            breadcrumbs,
            title,
            subtitle: None,
            summary: None,
            command: None,
            badges: Vec::new(),
            sections,
            actions: Vec::new(),
        };
        assert(badge_texts(r.badges@) =~= Seq::<BadgeText>::empty());
        assert(action_texts(r.actions@) =~= Seq::<ActionText>::empty());
        assert(section_texts(r.sections@) =~= seq![section@]);
        r
    }
}

/// A page of a title and one section, under some breadcrumbs.
pub open spec fn titled_page(breadcrumbs: Seq<LinkText>, title: Seq<char>, section: SectionText) -> PageText {
    PageText {
        breadcrumbs,
        title,
        subtitle: None,
        summary: None,
        command: None,
        badges: Seq::empty(),
        sections: seq![section],
        actions: Seq::empty(),
    }
}

} // verus!
