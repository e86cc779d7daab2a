use vstd::prelude::*;

use crate::text::{contains_seq, contains_str};

verus! {

/// The textual description block of a card. Every field is required.
#[derive(Debug)]
pub struct CardDescription {
    /// Category-tags text; the extra-deck flag is derived from it.
    pub types: String,
    /// Short (pendulum) effect text.
    pub pdesc: String,
    /// Full effect text.
    pub desc: String,
}

/// The numeric attribute block, present only for monster-like cards.
#[derive(Debug, Clone, Copy, PartialEq, Eq, Structural)]
pub struct CardAttribute {
    pub ot: i32,
    pub setcode: i64,
    pub type_: i32,
    pub atk: i32,
    pub def: i32,
    pub level: i32,
    pub race: i32,
    pub attribute: i32,
}

/// One trading-card record as delivered by the remote snapshot.
///
/// `cid` is the stable primary key; `id` is the mutable display identifier
/// that the remap feed rewrites. The `is_extra` field is never taken from the
/// feed: the stored flag is derived from `text.types` at ingestion time.
#[derive(Debug)]
pub struct YGOCard {
    pub cid: i32,
    pub id: i32,
    pub cn_name: Option<String>,
    pub sc_name: Option<String>,
    pub md_name: Option<String>,
    pub nwbbs_n: Option<String>,
    pub cnocg_n: Option<String>,
    pub jp_ruby: Option<String>,
    pub jp_name: Option<String>,
    pub en_name: Option<String>,
    pub text: CardDescription,
    pub data: Option<CardAttribute>,
    pub is_extra: bool,
}

/// A card belongs to the extra deck exactly when its category-tags text
/// contains one of the four designated summoning-category markers.
pub open spec fn spec_is_extra(types: Seq<char>) -> bool {
    ||| contains_seq(types, "融合"@)
    ||| contains_seq(types, "同调"@)
    ||| contains_seq(types, "超量"@)
    ||| contains_seq(types, "连接"@)
}

/// Derives the extra-deck flag from the card's category-tags text.
pub fn is_extra(card: &YGOCard) -> (r: bool)
    ensures
        r == spec_is_extra(card.text.types@),
{
    let t = card.text.types.as_str();
    contains_str(t, "融合") || contains_str(t, "同调") || contains_str(t, "超量") || contains_str(
        t,
        "连接",
    )
}

} // verus!
