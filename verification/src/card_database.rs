//! The cards that can be played with.

use std::sync::Arc;
use vstd::prelude::*;
use crate::object::{CardFace, LayoutKind, PrintedCardRef};
use crate::seqs::{first_where, lemma_first_where, lemma_first_where_none};
use crate::text::{lowercase, same_text, to_lowercase};

verus! {

/// The faces of a card.
#[derive(Debug)]
pub enum CardLayout {
    Single(Arc<CardFace>),
    Split(Arc<CardFace>, Arc<CardFace>),
    Adventure(Arc<CardFace>, Arc<CardFace>),
    Transform(Arc<CardFace>, Arc<CardFace>),
    Modal(Arc<CardFace>, Arc<CardFace>),
    Meld(Arc<CardFace>, Arc<CardFace>),
    Omen(Arc<CardFace>, Arc<CardFace>),
}

/// The layout and the face that is not showing, for cards that show one face at a time.
pub open spec fn second_face_of(layout: CardLayout) -> Option<(LayoutKind, Arc<CardFace>)> {
    match layout {
        CardLayout::Adventure(_, back) => Some((LayoutKind::Adventure, back)),
        CardLayout::Transform(_, back) => Some((LayoutKind::Transform, back)),
        CardLayout::Modal(_, back) => Some((LayoutKind::Modal, back)),
        CardLayout::Meld(_, back) => Some((LayoutKind::Meld, back)),
        CardLayout::Omen(_, back) => Some((LayoutKind::Omen, back)),
        CardLayout::Single(_) | CardLayout::Split(_, _) => None,
    }
}

impl CardLayout {
    /// The layout and the face that is not showing, for cards that show one face at a time.
    pub fn second_face(&self) -> (r: Option<(LayoutKind, Arc<CardFace>)>)
        ensures
            r == second_face_of(*self),
    {
        match self {
            CardLayout::Adventure(_, back) => Some((LayoutKind::Adventure, back.clone())),
            CardLayout::Transform(_, back) => Some((LayoutKind::Transform, back.clone())),
            CardLayout::Modal(_, back) => Some((LayoutKind::Modal, back.clone())),
            CardLayout::Meld(_, back) => Some((LayoutKind::Meld, back.clone())),
            CardLayout::Omen(_, back) => Some((LayoutKind::Omen, back.clone())),
            CardLayout::Single(_) | CardLayout::Split(_, _) => None,
        }
    }
}

/// A card with its faces.
#[derive(Debug)]
pub struct CardRules {
    pub name: String,
    pub layout: CardLayout,
}

/// The cards that can be played with: cards by name, faces by name in small letters, and layouts by
/// the identifier that the faces of a card share.
#[derive(Debug)]
pub struct CardDatabase {
    pub cards: Vec<CardRules>,
    pub faces: Vec<(String, Arc<CardFace>)>,
    pub layouts: Vec<(String, LayoutKind)>,
}

/// Being a card with a name, whatever the case of its letters.
pub open spec fn named(name: Seq<char>) -> spec_fn(CardRules) -> bool {
    |c: CardRules| lowercase(c.name@) == lowercase(name)
}

/// Being the entry of a face under a key.
pub open spec fn keyed(key: Seq<char>) -> spec_fn((String, Arc<CardFace>)) -> bool {
    |e: (String, Arc<CardFace>)| e.0@ == key
}

/// Whether a face belongs to a card.
pub open spec fn belongs_to(f: CardFace, oracle_id: Seq<char>) -> bool {
    f.scryfall_oracle_id is Some && (f.scryfall_oracle_id->0)@ == oracle_id
}

/// Being the face that a reference means.
pub open spec fn referred_to(r: PrintedCardRef) -> spec_fn((String, Arc<CardFace>)) -> bool {
    |e: (String, Arc<CardFace>)| belongs_to(*e.1, r.oracle_id@) && e.1.name@ == r.face_name@
}

/// Being another face of the card that a reference means.
pub open spec fn beside(r: PrintedCardRef) -> spec_fn((String, Arc<CardFace>)) -> bool {
    |e: (String, Arc<CardFace>)| belongs_to(*e.1, r.oracle_id@) && e.1.name@ != r.face_name@
}

/// Being the layout of a card.
pub open spec fn layout_under(oracle_id: Seq<char>) -> spec_fn((String, LayoutKind)) -> bool {
    |e: (String, LayoutKind)| e.0@ == oracle_id
}

/// The first element that satisfies a predicate, if there is one.
pub open spec fn find_first<T>(s: Seq<T>, p: spec_fn(T) -> bool) -> Option<T> {
    match first_where(s, p) {
        Some(i) => Some(s[i]),
        None => None,
    }
}

/// The face that a reference means.
pub open spec fn face_meant(db: CardDatabase, r: PrintedCardRef) -> Option<Arc<CardFace>> {
    match find_first(db.faces@, referred_to(r)) {
        Some(e) => Some(e.1),
        None => None,
    }
}

/// The other face of the card that a reference means.
pub open spec fn other_face_meant(db: CardDatabase, r: PrintedCardRef) -> Option<Arc<CardFace>> {
    match find_first(db.faces@, beside(r)) {
        Some(e) => Some(e.1),
        None => None,
    }
}

/// The face with a name.
pub open spec fn face_named(db: CardDatabase, name: Seq<char>) -> Option<Arc<CardFace>> {
    match find_first(db.faces@, keyed(lowercase(name))) {
        Some(e) => Some(e.1),
        None => None,
    }
}

/// The layout of a card.
pub open spec fn layout_of(db: CardDatabase, oracle_id: Seq<char>) -> Option<LayoutKind> {
    match find_first(db.layouts@, layout_under(oracle_id)) {
        Some(e) => Some(e.1),
        None => None,
    }
}

fn is_face_of(f: &CardFace, oracle_id: &str) -> (r: bool)
    ensures
        r == belongs_to(*f, oracle_id@),
{
    match &f.scryfall_oracle_id {
        Some(id) => same_text(id.as_str(), oracle_id),
        None => false,
    }
}

impl CardDatabase {
    /// A database without cards.
    pub fn new() -> (r: Self)
        ensures
            r.cards@.len() == 0,
            r.faces@.len() == 0,
            r.layouts@.len() == 0,
    {
        CardDatabase { cards: Vec::new(), faces: Vec::new(), layouts: Vec::new() }
    }

    /// Adds a face under its name in small letters.
    pub fn add_face(&mut self, face: CardFace)
        ensures
            final(self).cards@ == old(self).cards@,
            final(self).layouts@ == old(self).layouts@,
            final(self).faces@.len() == old(self).faces@.len() + 1,
            final(self).faces@.drop_last() == old(self).faces@,
            final(self).faces@.last().0@ == lowercase(face.name@),
            *final(self).faces@.last().1 == face,
    {
        let key = to_lowercase(face.name.as_str());
        self.faces.push((key, Arc::new(face)));
        assert(self.faces@.drop_last() =~= old(self).faces@);
    }

    /// The card with a name, whatever the case of its letters.
    pub fn get_by_name(&self, name: &str) -> (r: Option<&CardRules>)
        ensures
            match r {
                Some(c) => find_first(self.cards@, named(name@)) == Some(*c),
                None => find_first(self.cards@, named(name@)) is None,
            },
    {
        let key = to_lowercase(name);
        let ghost s = self.cards@;
        let ghost p = named(name@);
        let mut i: usize = 0;
        while i < self.cards.len()
            invariant
                i <= s.len(),
                s == self.cards@,
                p == named(name@),
                key@ == lowercase(name@),
                forall|j: int| 0 <= j < i ==> !p(#[trigger] s[j]),
            decreases s.len() - i,
        {
            let k = to_lowercase(self.cards[i].name.as_str());
            if same_text(k.as_str(), key.as_str()) {
                proof {
                    lemma_first_where(s, p, i as int);
                }
                return Some(&self.cards[i]);
            }
            i += 1;
        }
        proof {
            lemma_first_where_none(s, p);
        }
        None
    }

    /// The face with a name, whatever the case of its letters.
    pub fn get_face_by_name(&self, name: &str) -> (r: Option<Arc<CardFace>>)
        ensures
            r == face_named(*self, name@),
    {
        let key = to_lowercase(name);
        let ghost s = self.faces@;
        let ghost p = keyed(lowercase(name@));
        let mut i: usize = 0;
        while i < self.faces.len()
            invariant
                i <= s.len(),
                s == self.faces@,
                p == keyed(lowercase(name@)),
                key@ == lowercase(name@),
                forall|j: int| 0 <= j < i ==> !p(#[trigger] s[j]),
            decreases s.len() - i,
        {
            if same_text(self.faces[i].0.as_str(), key.as_str()) {
                proof {
                    lemma_first_where(s, p, i as int);
                }
                return Some(self.faces[i].1.clone());
            }
            i += 1;
        }
        proof {
            lemma_first_where_none(s, p);
        }
        None
    }

    /// The face that a reference means.
    pub fn get_face_by_printed_ref(&self, r: &PrintedCardRef) -> (f: Option<Arc<CardFace>>)
        ensures
            f == face_meant(*self, *r),
    {
        let ghost s = self.faces@;
        let ghost p = referred_to(*r);
        let mut i: usize = 0;
        while i < self.faces.len()
            invariant
                i <= s.len(),
                s == self.faces@,
                p == referred_to(*r),
                forall|j: int| 0 <= j < i ==> !p(#[trigger] s[j]),
            decreases s.len() - i,
        {
            let face = &self.faces[i].1;
            if is_face_of(&**face, r.oracle_id.as_str()) && same_text(
                face.name.as_str(),
                r.face_name.as_str(),
            ) {
                proof {
                    lemma_first_where(s, p, i as int);
                }
                return Some(self.faces[i].1.clone());
            }
            i += 1;
        }
        proof {
            lemma_first_where_none(s, p);
        }
        None
    }

    /// The other face of the card that a reference means.
    pub fn get_other_face_by_printed_ref(&self, r: &PrintedCardRef) -> (f: Option<Arc<CardFace>>)
        ensures
            f == other_face_meant(*self, *r),
    {
        let ghost s = self.faces@;
        let ghost p = beside(*r);
        let mut i: usize = 0;
        while i < self.faces.len()
            invariant
                i <= s.len(),
                s == self.faces@,
                p == beside(*r),
                forall|j: int| 0 <= j < i ==> !p(#[trigger] s[j]),
            decreases s.len() - i,
        {
            let face = &self.faces[i].1;
            if is_face_of(&**face, r.oracle_id.as_str()) && !same_text(
                face.name.as_str(),
                r.face_name.as_str(),
            ) {
                proof {
                    lemma_first_where(s, p, i as int);
                }
                return Some(self.faces[i].1.clone());
            }
            i += 1;
        }
        proof {
            lemma_first_where_none(s, p);
        }
        None
    }

    /// The layout of a card.
    pub fn get_layout_kind(&self, oracle_id: &str) -> (r: Option<LayoutKind>)
        ensures
            r == layout_of(*self, oracle_id@),
    {
        let ghost s = self.layouts@;
        let ghost p = layout_under(oracle_id@);
        let mut i: usize = 0;
        while i < self.layouts.len()
            invariant
                i <= s.len(),
                s == self.layouts@,
                p == layout_under(oracle_id@),
                forall|j: int| 0 <= j < i ==> !p(#[trigger] s[j]),
            decreases s.len() - i,
        {
            if same_text(self.layouts[i].0.as_str(), oracle_id) {
                proof {
                    lemma_first_where(s, p, i as int);
                }
                return Some(self.layouts[i].1);
            }
            i += 1;
        }
        proof {
            lemma_first_where_none(s, p);
        }
        None
    }
}

} // verus!
