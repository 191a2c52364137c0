//! Card records and the deck-list line that each one becomes.

use vstd::prelude::*;

verus! {

/// One card row of an inventory listing.
///
/// The four fields are kept as the text that was read. A card is foil where
/// `foil` holds a marker that is not empty: `None` and `Some` of the empty
/// text both stand for an ordinary print.
#[derive(Clone, Debug, PartialEq, Eq)]
pub struct MtgRecord {
    pub quantity: String,
    pub name: String,
    pub edition: String,
    pub foil: Option<String>,
}

/// The mathematical content of a [`MtgRecord`]: each field as a sequence of
/// characters.
pub struct RecordView {
    pub quantity: Seq<char>,
    pub name: Seq<char>,
    pub edition: Seq<char>,
    pub foil: Option<Seq<char>>,
}

impl View for MtgRecord {
    type V = RecordView;

    open spec fn view(&self) -> RecordView {
        RecordView {
            quantity: self.quantity@,
            name: self.name@,
            edition: self.edition@,
            foil: match self.foil {
                Some(marker) => Some(marker@),
                None => None,
            },
        }
    }
}

impl DeepView for MtgRecord {
    type V = RecordView;

    open spec fn deep_view(&self) -> RecordView {
        self@
    }
}

/// The text appended to the line of a foil card.
pub open spec fn foil_mark() -> Seq<char> {
    " *F*"@
}

/// The text appended to the line of the deck's commander.
pub open spec fn commander_mark() -> Seq<char> {
    " [Commander{top}]"@
}

impl RecordView {
    /// A card is foil exactly when its foil field holds a marker that is not
    /// empty.
    pub open spec fn is_foil(self) -> bool {
        self.foil is Some && self.foil->Some_0.len() > 0
    }

    /// A card is the commander exactly when a commander name was given and it
    /// equals the card's name, character for character.
    pub open spec fn is_commander(self, commander: Option<Seq<char>>) -> bool {
        commander == Some(self.name)
    }

    /// `"{quantity} {name} ({edition})"`.
    pub open spec fn base_line(self) -> Seq<char> {
        self.quantity + " "@ + self.name + " ("@ + self.edition + ")"@
    }

    /// The deck-list line of this card: the base line, the foil mark if the
    /// card is foil, and after it the commander mark if the card is the
    /// commander.
    pub open spec fn line(self, commander: Option<Seq<char>>) -> Seq<char> {
        self.base_line() + (if self.is_foil() {
            foil_mark()
        } else {
            Seq::empty()
        }) + (if self.is_commander(commander) {
            commander_mark()
        } else {
            Seq::empty()
        })
    }
}

impl MtgRecord {
    /// Formats this card as one deck-list line.
    pub fn archidekt_txt(&self, cmdr_name: Option<&str>) -> (line: String)
        ensures
            line@ == self@.line(cmdr_name.deep_view()),
    {
        let mut line = String::new();
        line.append(self.quantity.as_str());
        line.append(" ");
        line.append(self.name.as_str());
        line.append(" (");
        line.append(self.edition.as_str());
        line.append(")");
        let foil = match &self.foil {
            Some(marker) => !marker.as_str().is_empty(),
            None => false,
        };
        if foil {
            line.append(" *F*");
        }
        match cmdr_name {
            Some(name) => {
                let wanted = name.to_owned();
                if wanted == self.name {
                    line.append(" [Commander{top}]");
                }
            },
            None => {},
        }
        line
    }
}

} // verus!
