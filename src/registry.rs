//! The facet registry: for each taxonomy, its term table, its id column and
//! its junction table, and the names by which queries and blacklists refer to it.
use vstd::prelude::*;
use vstd::string::*;
use crate::text::chars_of;

verus! {

/// A taxonomy with its own term table and junction table.
#[derive(PartialEq, Eq, Debug, Clone, Copy, Structural)]
pub enum TagType {
    Artist,
    Circle,
    Magazine,
    Event,
    Publisher,
    Parody,
    Tag,
}

impl TagType {
    pub open spec fn table_name(self) -> Seq<char> {
        match self {
            TagType::Artist => "artists"@,
            TagType::Circle => "circles"@,
            TagType::Magazine => "magazines"@,
            TagType::Event => "events"@,
            TagType::Publisher => "publishers"@,
            TagType::Parody => "parodies"@,
            TagType::Tag => "tags"@,
        }
    }

    pub open spec fn id_column(self) -> Seq<char> {
        match self {
            TagType::Artist => "artist_id"@,
            TagType::Circle => "circle_id"@,
            TagType::Magazine => "magazine_id"@,
            TagType::Event => "event_id"@,
            TagType::Publisher => "publisher_id"@,
            TagType::Parody => "parody_id"@,
            TagType::Tag => "tag_id"@,
        }
    }

    pub open spec fn relation_name(self) -> Seq<char> {
        match self {
            TagType::Artist => "archive_artists"@,
            TagType::Circle => "archive_circles"@,
            TagType::Magazine => "archive_magazines"@,
            TagType::Event => "archive_events"@,
            TagType::Publisher => "archive_publishers"@,
            TagType::Parody => "archive_parodies"@,
            TagType::Tag => "archive_tags"@,
        }
    }

    /// The term table.
    pub fn table(&self) -> (r: String)
        ensures
            r@ == self.table_name(),
    {
        match self {
            TagType::Artist => String::from_str("artists"),
            TagType::Circle => String::from_str("circles"),
            TagType::Magazine => String::from_str("magazines"),
            TagType::Event => String::from_str("events"),
            TagType::Publisher => String::from_str("publishers"),
            TagType::Parody => String::from_str("parodies"),
            TagType::Tag => String::from_str("tags"),
        }
    }

    /// The column of the junction table that holds a term's id.
    pub fn id(&self) -> (r: String)
        ensures
            r@ == self.id_column(),
    {
        match self {
            TagType::Artist => String::from_str("artist_id"),
            TagType::Circle => String::from_str("circle_id"),
            TagType::Magazine => String::from_str("magazine_id"),
            TagType::Event => String::from_str("event_id"),
            TagType::Publisher => String::from_str("publisher_id"),
            TagType::Parody => String::from_str("parody_id"),
            TagType::Tag => String::from_str("tag_id"),
        }
    }

    /// The junction table between archives and terms.
    pub fn relation(&self) -> (r: String)
        ensures
            r@ == self.relation_name(),
    {
        match self {
            TagType::Artist => String::from_str("archive_artists"),
            TagType::Circle => String::from_str("archive_circles"),
            TagType::Magazine => String::from_str("archive_magazines"),
            TagType::Event => String::from_str("archive_events"),
            TagType::Publisher => String::from_str("archive_publishers"),
            TagType::Parody => String::from_str("archive_parodies"),
            TagType::Tag => String::from_str("archive_tags"),
        }
    }
}

/// What a facet filter of a search string looks in: a taxonomy, or the tags
/// under a namespace constraint.
#[derive(PartialEq, Eq, Debug, Clone, Copy, Structural)]
pub enum Facet {
    Artist,
    Circle,
    Magazine,
    Event,
    Publisher,
    Parody,
    AnyTag,
    MaleTag,
    FemaleTag,
    MiscTag,
}

impl Facet {
    /// The registry entry the facet is checked against.
    pub open spec fn tag_type(self) -> TagType {
        match self {
            Facet::Artist => TagType::Artist,
            Facet::Circle => TagType::Circle,
            Facet::Magazine => TagType::Magazine,
            Facet::Event => TagType::Event,
            Facet::Publisher => TagType::Publisher,
            Facet::Parody => TagType::Parody,
            _ => TagType::Tag,
        }
    }

    /// The namespace a tag relation must carry; `None` where any will do.
    pub open spec fn namespace(self) -> Option<Seq<char>> {
        match self {
            Facet::MaleTag => Some("male"@),
            Facet::FemaleTag => Some("female"@),
            Facet::MiscTag => Some("misc"@),
            _ => None,
        }
    }

    pub fn registry(&self) -> (r: TagType)
        ensures
            r == self.tag_type(),
    {
        match self {
            Facet::Artist => TagType::Artist,
            Facet::Circle => TagType::Circle,
            Facet::Magazine => TagType::Magazine,
            Facet::Event => TagType::Event,
            Facet::Publisher => TagType::Publisher,
            Facet::Parody => TagType::Parody,
            _ => TagType::Tag,
        }
    }
}

/// `c` is `l`, or its ASCII capital.
pub open spec fn folds_to(c: char, l: char) -> bool {
    c == l || ('A' <= c && c <= 'Z' && (c as u32) + 32 == (l as u32))
}

/// `a` spells the lower-case word `w`, letters in either case.
pub open spec fn spells(a: Seq<char>, w: Seq<char>) -> bool {
    a.len() == w.len() && forall|i: int| 0 <= i < a.len() ==> folds_to(#[trigger] a[i], w[i])
}

fn spells_word(a: &Vec<char>, w: &str) -> (r: bool)
    ensures
        r == spells(a@, w@),
{
    let wc = chars_of(w);
    assert(wc@ == w@);
    if a.len() != wc.len() {
        return false;
    }
    let mut i: usize = 0;
    while i < a.len()
        invariant
            i <= a.len() == wc.len(),
            wc@ == w@,
            forall|j: int| 0 <= j < i ==> folds_to(#[trigger] a@[j], wc@[j]),
        decreases a.len() - i,
    {
        let c = a[i];
        let l = wc[i];
        let hit = c == l || ('A' <= c && c <= 'Z' && (c as u32) + 32 == (l as u32));
        if !hit {
            assert(!folds_to(a@[i as int], wc@[i as int]));
            return false;
        }
        i += 1;
    }
    true
}

/// The facet a filter name selects; `None` for a name with no registry entry.
pub open spec fn facet_named(n: Seq<char>) -> Option<Facet> {
    if spells(n, "artist"@) {
        Some(Facet::Artist)
    } else if spells(n, "circle"@) {
        Some(Facet::Circle)
    } else if spells(n, "magazine"@) {
        Some(Facet::Magazine)
    } else if spells(n, "event"@) {
        Some(Facet::Event)
    } else if spells(n, "publisher"@) {
        Some(Facet::Publisher)
    } else if spells(n, "parody"@) {
        Some(Facet::Parody)
    } else if spells(n, "tag"@) {
        Some(Facet::AnyTag)
    } else if spells(n, "male"@) {
        Some(Facet::MaleTag)
    } else if spells(n, "female"@) {
        Some(Facet::FemaleTag)
    } else if spells(n, "misc"@) || spells(n, "other"@) {
        Some(Facet::MiscTag)
    } else {
        None
    }
}

pub fn facet_by_name(n: &Vec<char>) -> (r: Option<Facet>)
    ensures
        r == facet_named(n@),
{
    if spells_word(n, "artist") {
        Some(Facet::Artist)
    } else if spells_word(n, "circle") {
        Some(Facet::Circle)
    } else if spells_word(n, "magazine") {
        Some(Facet::Magazine)
    } else if spells_word(n, "event") {
        Some(Facet::Event)
    } else if spells_word(n, "publisher") {
        Some(Facet::Publisher)
    } else if spells_word(n, "parody") {
        Some(Facet::Parody)
    } else if spells_word(n, "tag") {
        Some(Facet::AnyTag)
    } else if spells_word(n, "male") {
        Some(Facet::MaleTag)
    } else if spells_word(n, "female") {
        Some(Facet::FemaleTag)
    } else if spells_word(n, "misc") || spells_word(n, "other") {
        Some(Facet::MiscTag)
    } else {
        None
    }
}

/// The registry entry a blacklist namespace names; an unknown one names the tags.
pub open spec fn blacklist_namespace(ns: Seq<char>) -> TagType {
    if ns == "a"@ {
        TagType::Artist
    } else if ns == "c"@ {
        TagType::Circle
    } else if ns == "m"@ {
        TagType::Magazine
    } else if ns == "e"@ {
        TagType::Event
    } else if ns == "ps"@ {
        TagType::Publisher
    } else if ns == "p"@ {
        TagType::Parody
    } else {
        TagType::Tag
    }
}

fn same_chars(a: &Vec<char>, w: &str) -> (r: bool)
    ensures
        r == (a@ == w@),
{
    let wc = chars_of(w);
    assert(wc@ == w@);
    if a.len() != wc.len() {
        return false;
    }
    let mut i: usize = 0;
    while i < a.len()
        invariant
            i <= a.len() == wc.len(),
            wc@ == w@,
            forall|j: int| 0 <= j < i ==> a@[j] == wc@[j],
        decreases a.len() - i,
    {
        if a[i] != wc[i] {
            assert(a@[i as int] != wc@[i as int]);
            return false;
        }
        i += 1;
    }
    assert(a@ =~= wc@);
    true
}

pub fn tag_type_of_namespace(ns: &Vec<char>) -> (r: TagType)
    ensures
        r == blacklist_namespace(ns@),
{
    if same_chars(ns, "a") {
        TagType::Artist
    } else if same_chars(ns, "c") {
        TagType::Circle
    } else if same_chars(ns, "m") {
        TagType::Magazine
    } else if same_chars(ns, "e") {
        TagType::Event
    } else if same_chars(ns, "ps") {
        TagType::Publisher
    } else if same_chars(ns, "p") {
        TagType::Parody
    } else {
        TagType::Tag
    }
}

} // verus!
