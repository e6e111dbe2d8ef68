//! Inventory slots. A slot is either empty (one zero byte) or an item id
//! and count followed by its metadata tag. The only metadata form this
//! codec accepts on the wire is the empty tag (a single end byte): a
//! populated tag blob has no uniform presence rule in the protocol, so it
//! is rejected rather than guessed at.

use vstd::prelude::*;

use crate::protocol::DecodeError;
use crate::protocol::ProtocolRead;
use crate::protocol::ProtocolWrite;
use crate::protocol::lemma_skip_skip;
use crate::var::Var;

verus! {

/// The enchantments an item stack can carry in its metadata.
#[derive(Debug, Clone, Copy, PartialEq, Eq, Structural)]
pub enum EnchantmentKind {
    AquaAffinity,
    BaneOfArthropods,
    BlastProtection,
    Channeling,
    Cleaving,
    CurseOfBinding,
    CurseOfVanishing,
    DepthStrider,
    Efficiency,
    FeatherFalling,
    FireAspect,
    FireProtection,
    Flame,
    Fortune,
    FrostWalker,
    Impaling,
    Infinity,
    Knockback,
    Looting,
    Loyalty,
    LuckOfTheSea,
    Lure,
    Mending,
    Multishot,
    Piercing,
    Power,
    ProjectileProtection,
    Protection,
    Punch,
    QuickCharge,
    Respiration,
    Riptide,
    Sharpness,
    SilkTouch,
    Smite,
    SoulSpeed,
    SweepingEdge,
    Thorns,
    Unbreaking,
}

/// One enchantment and its level.
#[derive(Debug, Clone, Copy, PartialEq, Eq, Structural)]
pub struct Enchantment {
    pub kind: EnchantmentKind,
    pub level: i8,
}

/// The metadata an item stack can carry: display strings, damage, repair
/// cost, and enchantments.
#[derive(Debug, Clone)]
pub struct ItemStackMeta {
    pub title: String,
    pub lore: String,
    pub damage: Option<i32>,
    pub repair_cost: Option<u32>,
    pub enchantments: Vec<Enchantment>,
}

/// One inventory slot: empty, or an item with a count and (optionally)
/// metadata.
#[derive(Debug, Clone)]
pub struct Slot {
    pub present: bool,
    pub item_id: Option<Var<i32>>,
    pub item_count: Option<u8>,
    pub meta: Option<ItemStackMeta>,
}

/// The mathematical model of a `Slot`.
pub struct SlotView {
    pub present: bool,
    pub item_id: Option<Var<i32>>,
    pub item_count: Option<u8>,
    pub has_meta: bool,
}

impl DeepView for Slot {
    type V = SlotView;

    open spec fn deep_view(&self) -> SlotView {
        SlotView {
            present: self.present,
            item_id: self.item_id,
            item_count: self.item_count,
            has_meta: self.meta is Some,
        }
    }
}

impl Default for Slot {
    /// An empty slot.
    fn default() -> (r: Self)
        ensures
            !r.present,
            r.item_id is None,
            r.item_count is None,
            r.meta is None,
    {
        Slot { present: false, item_id: None, item_count: None, meta: None }
    }
}

impl ProtocolWrite for Slot {
    /// A present slot has an id and a count and the empty metadata tag;
    /// an empty slot has nothing.
    open spec fn valid(&self) -> bool {
        if self.present {
            self.item_id is Some && self.item_count is Some && self.meta is None
        } else {
            self.item_id is None && self.item_count is None && self.meta is None
        }
    }

    open spec fn wire(&self) -> Seq<u8> {
        if !self.present {
            seq![0u8]
        } else {
            seq![1u8] + (match self.item_id {
                Some(v) => v.wire(),
                None => Seq::empty(),
            }) + (match self.item_count {
                Some(c) => seq![c],
                None => Seq::empty(),
            }) + seq![0u8]
        }
    }

    fn proto_len(&self) -> (n: usize) {
        if !self.present {
            1
        } else {
            match &self.item_id {
                Some(v) => 3 + v.proto_len(),
                None => 1,
            }
        }
    }

    fn proto_encode(&self, dst: &mut Vec<u8>) {
        if !self.present {
            dst.push(0u8);
            assert(dst@ =~= old(dst)@ + self.wire());
        } else {
            dst.push(1u8);
            match &self.item_id {
                Some(v) => v.proto_encode(dst),
                None => {},
            }
            match &self.item_count {
                Some(c) => dst.push(*c),
                None => {},
            }
            dst.push(0u8);
            assert(dst@ =~= old(dst)@ + self.wire());
        }
    }
}

impl ProtocolRead for Slot {
    open spec fn dec(s: Seq<u8>) -> Result<(SlotView, int), DecodeError> {
        match bool::dec(s) {
            Err(e) => Err(e),
            Ok((b, n)) => if !b {
                Ok((SlotView { present: false, item_id: None, item_count: None, has_meta: false }, n))
            } else {
                match <(Var<i32>, u8)>::dec(s.skip(n)) {
                    Err(e) => Err(e),
                    Ok(((id, c), m)) => {
                        let s2 = s.skip(n + m);
                        if s2.len() == 0 {
                            Err(DecodeError::Eof)
                        } else if s2[0] == 0 {
                            Ok(
                                (
                                    SlotView {
                                        present: true,
                                        item_id: Some(id),
                                        item_count: Some(c),
                                        has_meta: false,
                                    },
                                    n + m + 1,
                                ),
                            )
                        } else {
                            Err(DecodeError::InvalidEnum)
                        }
                    },
                }
            },
        }
    }

    proof fn dec_sound(s: Seq<u8>) {
        bool::dec_sound(s);
        match bool::dec(s) {
            Err(_) => {},
            Ok((b, n)) => {
                <(Var<i32>, u8)>::dec_sound(s.skip(n));
            },
        }
    }

    proof fn dec_complete(v: Self, rest: Seq<u8>) {
        let s = v.wire() + rest;
        if !v.present {
            assert(s[0] == 0u8);
        } else {
            match (v.item_id, v.item_count) {
                (Some(id), Some(c)) => {
                    let t = (id, c);
                    assert(s =~= seq![1u8] + (t.wire() + (seq![0u8] + rest)));
                    assert(bool::dec(s) == Ok::<(bool, int), DecodeError>((true, 1))) by {
                        assert(s[0] == 1u8);
                    }
                    assert(s.skip(1) =~= t.wire() + (seq![0u8] + rest));
                    <(Var<i32>, u8)>::dec_complete(t, seq![0u8] + rest);
                    let m = t.wire().len() as int;
                    assert(s.skip(1 + m) =~= seq![0u8] + rest);
                    assert(s.skip(1 + m)[0] == 0u8);
                },
                _ => {},
            }
        }
    }

    fn proto_decode(src: &[u8], pos: usize) -> (r: Result<(Self, usize), DecodeError>) {
        let ghost s = src@.skip(pos as int);
        match bool::proto_decode(src, pos) {
            Err(e) => Err(e),
            Ok((b, p1)) => {
                proof {
                    lemma_skip_skip(src@, pos as int, p1 - pos);
                }
                if !b {
                    Ok(
                        (
                            Slot { present: false, item_id: None, item_count: None, meta: None },
                            p1,
                        ),
                    )
                } else {
                    match <(Var<i32>, u8)>::proto_decode(src, p1) {
                        Err(e) => Err(e),
                        Ok(((id, c), p2)) => {
                            proof {
                                lemma_skip_skip(src@, pos as int, p2 - pos);
                            }
                            if p2 >= src.len() {
                                assert(src@.skip(p2 as int).len() == 0);
                                Err(DecodeError::Eof)
                            } else {
                                assert(src@.skip(p2 as int)[0] == src@[p2 as int]);
                                let tag = src[p2];
                                if tag == 0 {
                                    Ok(
                                        (
                                            Slot {
                                                present: true,
                                                item_id: Some(id),
                                                item_count: Some(c),
                                                meta: None,
                                            },
                                            p2 + 1,
                                        ),
                                    )
                                } else {
                                    Err(DecodeError::InvalidEnum)
                                }
                            }
                        },
                    }
                }
            },
        }
    }
}

} // verus!
