//! The smaller parts of a save whose layout depends on the game version:
//! mostly sequences whose count the version fixes or the data holds.

use vstd::prelude::*;
use crate::country_code::CountryCode;
use crate::game::main_story::TOTAL_STORY_CHAPTERS;
use crate::stream::compound::{HashMapLength, spec_read_map};
use crate::stream::varint::VariableLengthInt;
use crate::stream::compound::LengthString;
use crate::stream::modeled::{lemma_models_roundtrip, models, read_models, spec_read_models, spec_write_models, write_models};
use vstd::utf8::encode_utf8;
use crate::save::GVCC;
use crate::stream::{Codec, Readable, Reader, StreamError, StreamErrorKind, StreamResult, Writable, Writer, read_result};
use crate::stream::lists::{
    read_vec2, spec_read_vec2, spec_write_vec2, vec2_view, write_vec2, lemma_vec2_reader_bounded, vec2_reader_at,
    read_items, item_reader, read_list, lemma_item_reader_bounded, lemma_read_list_bounds,
    read_result_view, read_vec, spec_read_vec, spec_write_vec, vec_view, write_vec, VecArgs,
    VecArgsLength, vec_writable, all_writable, lemma_vec_roundtrip, length_fits, fixed_items,
    spec_count,
};

verus! {

/* Sequences with a count per version */

/// Reads a sequence whose count kind the version decides.
fn read_counted<T: Readable>(r: &mut Reader, length: VecArgsLength) -> (res: StreamResult<Vec<T>>)
    ensures
        read_result_view(*old(r), *final(r), res, spec_read_vec::<T>(length, old(r).rest()), vec_view::<T>()),
{
    read_vec::<T>(r, VecArgs::new_empty(length))
}

/// Writes a sequence of values that can always be written.
fn write_counted<T: Writable>(w: &mut Writer, items: &Vec<T>, length: VecArgsLength)
    requires
        forall|v: T| #[trigger] v.can_write(),
        !(length is VariableLengthInt),
    ensures
        final(w).bytes() == old(w).bytes() + spec_write_vec::<T>(length, items@),
{
    assert(vec_writable(length, items@));
    write_vec::<T>(w, items.as_slice(), VecArgs::new_empty(length));
}

/// Pop-ups: 3 up to version 1, 4 up to 4, 5 at 5, 6 up to 9, else 36.
pub open spec fn unlock_popups_length(gv: u32) -> VecArgsLength {
    VecArgsLength::Fixed(
        if gv <= 1 {
            3
        } else if gv <= 4 {
            4
        } else if gv == 5 {
            5
        } else if gv <= 9 {
            6
        } else {
            36
        },
    )
}

fn unlock_popups_args(gv: u32) -> (a: VecArgsLength)
    ensures
        a == unlock_popups_length(gv),
{
    VecArgsLength::Fixed(
        if gv <= 1 {
            3
        } else if gv <= 4 {
            4
        } else if gv == 5 {
            5
        } else if gv <= 9 {
            6
        } else {
            36
        },
    )
}

#[derive(Debug, Clone)]
pub struct UnlockPopups8 {
    pub popups: Vec<i32>,
}

impl UnlockPopups8 {
    pub fn read(r: &mut Reader, args: GVCC) -> (res: StreamResult<Self>)
        ensures
            read_result_view(
                *old(r),
                *final(r),
                res,
                spec_read_vec::<i32>(unlock_popups_length(args.gv.0), old(r).rest()),
                |x: Self| x.popups@,
            ),
    {
        Ok(UnlockPopups8 { popups: read_counted::<i32>(r, unlock_popups_args(args.gv.0))? })
    }

    pub fn write(&self, w: &mut Writer, args: GVCC)
        ensures
            final(w).bytes() == old(w).bytes() + spec_write_vec::<i32>(unlock_popups_length(args.gv.0), self.popups@),
    {
        write_counted::<i32>(w, &self.popups, unlock_popups_args(args.gv.0));
    }
}

/// User rank rewards: 30 before version 30, else counted.
pub open spec fn user_rank_rewards_length(gv: u32) -> VecArgsLength {
    if gv < 30 {
        VecArgsLength::Fixed(30)
    } else {
        VecArgsLength::I32
    }
}

#[derive(Debug, Clone)]
pub struct UserRankRewards {
    pub rewards: Vec<bool>,
}

impl UserRankRewards {
    pub fn read(r: &mut Reader, args: GVCC) -> (res: StreamResult<Self>)
        ensures
            read_result_view(
                *old(r),
                *final(r),
                res,
                spec_read_vec::<bool>(user_rank_rewards_length(args.gv.0), old(r).rest()),
                |x: Self| x.rewards@,
            ),
    {
        let length = if args.gv.0 < 30 { VecArgsLength::Fixed(30) } else { VecArgsLength::I32 };
        Ok(UserRankRewards { rewards: read_counted::<bool>(r, length)? })
    }

    pub fn write(&self, w: &mut Writer, args: GVCC)
        ensures
            final(w).bytes() == old(w).bytes() + spec_write_vec::<bool>(
                user_rank_rewards_length(args.gv.0),
                self.rewards@,
            ),
    {
        let length = if args.gv.0 < 30 { VecArgsLength::Fixed(30) } else { VecArgsLength::I32 };
        write_counted::<bool>(w, &self.rewards, length);
    }
}

/// A list of flags that versions 20 to 38 have: 12 up to 25, then counted.
pub open spec fn ubl1_length(gv: u32) -> Option<VecArgsLength> {
    if gv < 20 {
        None
    } else if gv <= 25 {
        Some(VecArgsLength::Fixed(12))
    } else if gv < 39 {
        Some(VecArgsLength::I32)
    } else {
        None
    }
}

fn ubl1_args(gv: u32) -> (a: Option<VecArgsLength>)
    ensures
        a == ubl1_length(gv),
{
    if gv < 20 {
        None
    } else if gv <= 25 {
        Some(VecArgsLength::Fixed(12))
    } else if gv < 39 {
        Some(VecArgsLength::I32)
    } else {
        None
    }
}

#[derive(Debug, Clone)]
pub struct Ubl1(pub Option<Vec<bool>>);

pub open spec fn ubl1_view(x: Ubl1) -> Option<Seq<bool>> {
    match x.0 {
        Some(v) => Some(v@),
        None => None,
    }
}

impl Ubl1 {
    pub fn read(r: &mut Reader, args: GVCC) -> (res: StreamResult<Self>)
        ensures
            read_result_view(
                *old(r),
                *final(r),
                res,
                match ubl1_length(args.gv.0) {
                    Some(l) => match spec_read_vec::<bool>(l, old(r).rest()) {
                        Some((v, k)) => Some((Some(v), k)),
                        None => None,
                    },
                    None => Some((None, 0)),
                },
                |x: Self| ubl1_view(x),
            ),
    {
        let _ = r.remaining();
        match ubl1_args(args.gv.0) {
            Some(l) => Ok(Ubl1(Some(read_counted::<bool>(r, l)?))),
            None => Ok(Ubl1(None)),
        }
    }

    /// Writes the flags where the version has them (none where there are none).
    pub fn write(&self, w: &mut Writer, args: GVCC)
        ensures
            final(w).bytes() == old(w).bytes() + match ubl1_length(args.gv.0) {
                Some(l) => spec_write_vec::<bool>(
                    l,
                    match ubl1_view(*self) {
                        Some(v) => v,
                        None => Seq::empty(),
                    },
                ),
                None => Seq::empty(),
            },
    {
        match ubl1_args(args.gv.0) {
            Some(l) => match &self.0 {
                Some(v) => write_counted::<bool>(w, v, l),
                None => {
                    let empty: Vec<bool> = Vec::new();
                    write_counted::<bool>(w, &empty, l);
                },
            },
            None => {
                assert(w.bytes() =~= old(w).bytes() + Seq::<u8>::empty());
            },
        }
    }
}

/// Unit drops: 110 up to version 25, then counted.
pub open spec fn unit_drops_length(gv: u32) -> VecArgsLength {
    if gv <= 25 {
        VecArgsLength::Fixed(110)
    } else {
        VecArgsLength::I32
    }
}

#[derive(Debug, Clone)]
pub struct UnitDrops {
    pub unit_drops: Option<Vec<i32>>,
}

impl UnitDrops {
    /// Reads the drops; they are always there once read.
    pub fn read(r: &mut Reader, args: GVCC) -> (res: StreamResult<Self>)
        ensures
            read_result_view(
                *old(r),
                *final(r),
                res,
                match spec_read_vec::<i32>(unit_drops_length(args.gv.0), old(r).rest()) {
                    Some((v, k)) => Some((Some(v), k)),
                    None => None,
                },
                |x: Self| match x.unit_drops {
                    Some(v) => Some(v@),
                    None => None,
                },
            ),
    {
        let length = if args.gv.0 <= 25 { VecArgsLength::Fixed(110) } else { VecArgsLength::I32 };
        Ok(UnitDrops { unit_drops: Some(read_counted::<i32>(r, length)?) })
    }

    /// Writes the drops; missing drops are written as none.
    pub fn write(&self, w: &mut Writer, args: GVCC)
        ensures
            final(w).bytes() == old(w).bytes() + spec_write_vec::<i32>(
                unit_drops_length(args.gv.0),
                match self.unit_drops {
                    Some(v) => v@,
                    None => Seq::empty(),
                },
            ),
    {
        let length = if args.gv.0 <= 25 { VecArgsLength::Fixed(110) } else { VecArgsLength::I32 };
        match &self.unit_drops {
            Some(v) => write_counted::<i32>(w, v, length),
            None => {
                let empty: Vec<i32> = Vec::new();
                write_counted::<i32>(w, &empty, length);
            },
        }
    }
}

/// A list of flags of the first versions: 39 up to version 1, 69 up to 4,
/// none after.
pub open spec fn early_bool_list_length(gv: u32) -> VecArgsLength {
    VecArgsLength::Fixed(
        if gv <= 1 {
            39
        } else if gv <= 4 {
            69
        } else {
            0
        },
    )
}

#[derive(Debug, Clone)]
pub struct UnknownEarlyBoolList {
    pub data: Vec<bool>,
}

impl UnknownEarlyBoolList {
    pub fn read(r: &mut Reader, args: GVCC) -> (res: StreamResult<Self>)
        ensures
            read_result_view(
                *old(r),
                *final(r),
                res,
                spec_read_vec::<bool>(early_bool_list_length(args.gv.0), old(r).rest()),
                |x: Self| x.data@,
            ),
    {
        let n: usize = if args.gv.0 <= 1 { 39 } else if args.gv.0 <= 4 { 69 } else { 0 };
        Ok(UnknownEarlyBoolList { data: read_counted::<bool>(r, VecArgsLength::Fixed(n))? })
    }

    pub fn write(&self, w: &mut Writer, args: GVCC)
        ensures
            final(w).bytes() == old(w).bytes() + spec_write_vec::<bool>(
                early_bool_list_length(args.gv.0),
                self.data@,
            ),
    {
        let n: usize = if args.gv.0 <= 1 { 39 } else if args.gv.0 <= 4 { 69 } else { 0 };
        write_counted::<bool>(w, &self.data, VecArgsLength::Fixed(n));
    }
}

/// New dialogs: 12 before version 10, 17 before 27, then counted.
pub open spec fn new_dialogs_length(gv: u32) -> VecArgsLength {
    if gv < 10 {
        VecArgsLength::Fixed(12)
    } else if gv < 27 {
        VecArgsLength::Fixed(17)
    } else {
        VecArgsLength::I32
    }
}

fn new_dialogs_args(gv: u32) -> (a: VecArgsLength)
    ensures
        a == new_dialogs_length(gv),
{
    if gv < 10 {
        VecArgsLength::Fixed(12)
    } else if gv < 27 {
        VecArgsLength::Fixed(17)
    } else {
        VecArgsLength::I32
    }
}

#[derive(Debug, Clone)]
pub struct NewDialogs {
    pub new_dialogs: Vec<i32>,
}

impl NewDialogs {
    pub fn read(r: &mut Reader, args: GVCC) -> (res: StreamResult<Self>)
        ensures
            read_result_view(
                *old(r),
                *final(r),
                res,
                spec_read_vec::<i32>(new_dialogs_length(args.gv.0), old(r).rest()),
                |x: Self| x.new_dialogs@,
            ),
    {
        Ok(NewDialogs { new_dialogs: read_counted::<i32>(r, new_dialogs_args(args.gv.0))? })
    }

    pub fn write(&self, w: &mut Writer, args: GVCC)
        ensures
            final(w).bytes() == old(w).bytes() + spec_write_vec::<i32>(new_dialogs_length(args.gv.0), self.new_dialogs@),
    {
        write_counted::<i32>(w, &self.new_dialogs, new_dialogs_args(args.gv.0));
    }
}

/// Menu unlocks: 5 up to version 25, 6 at 26, then counted.
pub open spec fn menu_unlocks_length(gv: u32) -> VecArgsLength {
    if gv <= 25 {
        VecArgsLength::Fixed(5)
    } else if gv == 26 {
        VecArgsLength::Fixed(6)
    } else {
        VecArgsLength::I32
    }
}

fn menu_unlocks_args(gv: u32) -> (a: VecArgsLength)
    ensures
        a == menu_unlocks_length(gv),
{
    if gv <= 25 {
        VecArgsLength::Fixed(5)
    } else if gv == 26 {
        VecArgsLength::Fixed(6)
    } else {
        VecArgsLength::I32
    }
}

#[derive(Debug, Clone)]
pub struct MenuUnlocks1 {
    pub unlocks: Vec<i32>,
    pub unlock_popups: Vec<i32>,
}

impl MenuUnlocks1 {
    pub fn read(r: &mut Reader, args: GVCC) -> (res: StreamResult<Self>)
        ensures
            read_result_view(
                *old(r),
                *final(r),
                res,
                match spec_read_vec::<i32>(menu_unlocks_length(args.gv.0), old(r).rest()) {
                    Some((a, k1)) => match spec_read_vec::<i32>(
                        menu_unlocks_length(args.gv.0),
                        old(r).rest().skip(k1),
                    ) {
                        Some((b, k2)) => Some(((a, b), k1 + k2)),
                        None => None,
                    },
                    None => None,
                },
                |x: Self| (x.unlocks@, x.unlock_popups@),
            ),
    {
        let ghost start = *old(r);
        let _ = r.remaining();
        let length = menu_unlocks_args(args.gv.0);
        let unlocks = read_counted::<i32>(r, length)?;
        proof {
            crate::stream::lists::lemma_vec_reader_bounded::<i32>(length);
            assert(crate::stream::lists::vec_reader::<i32>(length)(start.rest()) == spec_read_vec::<i32>(
                length,
                start.rest(),
            ));
            Reader::lemma_rest_skip(start, *r);
        }
        let unlock_popups = read_counted::<i32>(r, length)?;
        Ok(MenuUnlocks1 { unlocks, unlock_popups })
    }

    pub fn write(&self, w: &mut Writer, args: GVCC)
        ensures
            final(w).bytes() == old(w).bytes() + spec_write_vec::<i32>(menu_unlocks_length(args.gv.0), self.unlocks@)
                + spec_write_vec::<i32>(menu_unlocks_length(args.gv.0), self.unlock_popups@),
    {
        let length = menu_unlocks_args(args.gv.0);
        write_counted::<i32>(w, &self.unlocks, length);
        write_counted::<i32>(w, &self.unlock_popups, length);
    }
}

/// The enemy guide: 131 before version 6, 231 before 26, then counted.
pub open spec fn enemy_guide_length(gv: u32) -> VecArgsLength {
    if gv < 6 {
        VecArgsLength::Fixed(131)
    } else if gv < 26 {
        VecArgsLength::Fixed(231)
    } else {
        VecArgsLength::I32
    }
}

fn enemy_guide_args(gv: u32) -> (a: VecArgsLength)
    ensures
        a == enemy_guide_length(gv),
{
    if gv < 6 {
        VecArgsLength::Fixed(131)
    } else if gv < 26 {
        VecArgsLength::Fixed(231)
    } else {
        VecArgsLength::I32
    }
}

#[derive(Debug, Clone)]
pub struct EnemyGuide {
    pub enemy_guide: Vec<i32>,
}

impl EnemyGuide {
    pub fn read(r: &mut Reader, args: GVCC) -> (res: StreamResult<Self>)
        ensures
            read_result_view(
                *old(r),
                *final(r),
                res,
                spec_read_vec::<i32>(enemy_guide_length(args.gv.0), old(r).rest()),
                |x: Self| x.enemy_guide@,
            ),
    {
        Ok(EnemyGuide { enemy_guide: read_counted::<i32>(r, enemy_guide_args(args.gv.0))? })
    }

    pub fn write(&self, w: &mut Writer, args: GVCC)
        ensures
            final(w).bytes() == old(w).bytes() + spec_write_vec::<i32>(enemy_guide_length(args.gv.0), self.enemy_guide@),
    {
        write_counted::<i32>(w, &self.enemy_guide, enemy_guide_args(args.gv.0));
    }
}

/* Cats */

/// The number of cats that versions before the count was stored have.
pub open spec fn spec_total_cats(gv: u32) -> Option<usize> {
    if gv == 1 {
        Some(88)
    } else if 2 <= gv <= 4 {
        Some(122)
    } else if gv == 5 {
        Some(144)
    } else if gv == 6 {
        Some(172)
    } else if gv == 7 || gv == 8 {
        Some(179)
    } else if gv == 9 {
        Some(185)
    } else if gv == 20 {
        Some(203)
    } else if gv == 21 {
        Some(214)
    } else if gv == 22 {
        Some(231)
    } else if gv == 23 {
        Some(241)
    } else if gv == 24 {
        Some(249)
    } else {
        None
    }
}

pub fn get_total_cats_from_gv(gv: crate::game_version::GameVersion) -> (n: Option<usize>)
    ensures
        n == spec_total_cats(gv.0),
{
    match gv.0 {
        1 => Some(88),
        2..=4 => Some(122),
        5 => Some(144),
        6 => Some(172),
        7 | 8 => Some(179),
        9 => Some(185),
        20 => Some(203),
        21 => Some(214),
        22 => Some(231),
        23 => Some(241),
        24 => Some(249),
        _ => None,
    }
}

/// The count of per-cat data: fixed where the version fixes the number of
/// cats, else stored as a 32-bit number.
pub open spec fn cats_length(gv: u32) -> VecArgsLength {
    match spec_total_cats(gv) {
        Some(t) => VecArgsLength::Fixed(t),
        None => VecArgsLength::I32,
    }
}

/// Data with one entry per cat.
#[derive(Debug, Clone)]
pub struct CatsField<T>(pub T);

impl<T: Readable + Writable> CatsField<Vec<T>> {
    pub fn read(r: &mut Reader, args: GVCC) -> (res: StreamResult<Self>)
        ensures
            read_result_view(
                *old(r),
                *final(r),
                res,
                spec_read_vec::<T>(cats_length(args.gv.0), old(r).rest()),
                |x: Self| x.0@,
            ),
    {
        let length = match get_total_cats_from_gv(args.gv) {
            Some(t) => VecArgsLength::Fixed(t),
            None => VecArgsLength::I32,
        };
        Ok(CatsField(read_counted::<T>(r, length)?))
    }

    pub fn write(&self, w: &mut Writer, args: GVCC)
        requires
            all_writable(self.0@),
        ensures
            final(w).bytes() == old(w).bytes() + spec_write_vec::<T>(cats_length(args.gv.0), self.0@),
    {
        let length = match get_total_cats_from_gv(args.gv) {
            Some(t) => VecArgsLength::Fixed(t),
            None => VecArgsLength::I32,
        };
        write_vec::<T>(w, self.0.as_slice(), VecArgs::new_empty(length));
    }
}

/// Per-cat data reads back as written, where its count is stored and fits,
/// or as the data cut or padded to the number of cats of the version.
pub proof fn lemma_cats_roundtrip<T: Codec>(gv: u32, s: Seq<T>, rest: Seq<u8>)
    requires
        all_writable(s),
        s.len() <= i32::MAX,
    ensures
        spec_read_vec::<T>(cats_length(gv), spec_write_vec::<T>(cats_length(gv), s) + rest) == Some(
            (
                fixed_items(s, spec_count(cats_length(gv), s.len() as usize) as nat, T::spec_default()),
                spec_write_vec::<T>(cats_length(gv), s).len() as int,
            ),
        ),
{
    lemma_vec_roundtrip::<T>(cats_length(gv), s, rest);
}

/* Records of fixed layout */

/// The level of a cat or skill: plus levels and base levels.
#[derive(Debug, Copy, Clone, PartialEq, Eq, Structural)]
pub struct Upgrade {
    pub plus: i16,
    pub base: i16,
}

impl Readable for Upgrade {
    open spec fn spec_read(bytes: Seq<u8>) -> Option<(Upgrade, int)> {
        match <(i16, i16)>::spec_read(bytes) {
            Some((t, k)) => Some((Upgrade { plus: t.0, base: t.1 }, k)),
            None => None,
        }
    }

    proof fn lemma_read_bounds(bytes: Seq<u8>) {
        <(i16, i16)>::lemma_read_bounds(bytes);
    }

    fn read(r: &mut Reader) -> (res: StreamResult<Upgrade>) {
        let (plus, base) = <(i16, i16)>::read(r)?;
        Ok(Upgrade { plus, base })
    }
}

impl Writable for Upgrade {
    open spec fn spec_write(&self) -> Seq<u8> {
        (self.plus, self.base).spec_write()
    }

    open spec fn can_write(&self) -> bool {
        true
    }

    open spec fn spec_default() -> Upgrade {
        Upgrade { plus: 0, base: 0 }
    }

    fn write(&self, w: &mut Writer) {
        (self.plus, self.base).write(w);
    }

    fn default_value() -> (d: Upgrade) {
        Upgrade { plus: 0, base: 0 }
    }

    proof fn lemma_default_writable() {
    }
}

impl Codec for Upgrade {
    proof fn lemma_roundtrip(v: Upgrade, rest: Seq<u8>) {
        <(i16, i16)>::lemma_roundtrip((v.plus, v.base), rest);
    }
}

/// The ten slots of a lineup.
#[derive(Debug, Copy, Clone)]
pub struct LineUp {
    pub slots: [i32; 10],
}

impl Readable for LineUp {
    open spec fn spec_read(bytes: Seq<u8>) -> Option<(LineUp, int)> {
        match <[i32; 10]>::spec_read(bytes) {
            Some((t, k)) => Some((LineUp { slots: t }, k)),
            None => None,
        }
    }

    proof fn lemma_read_bounds(bytes: Seq<u8>) {
        <[i32; 10]>::lemma_read_bounds(bytes);
    }

    fn read(r: &mut Reader) -> (res: StreamResult<LineUp>) {
        let slots = <[i32; 10]>::read(r)?;
        Ok(LineUp { slots })
    }
}

impl Writable for LineUp {
    open spec fn spec_write(&self) -> Seq<u8> {
        self.slots.spec_write()
    }

    open spec fn can_write(&self) -> bool {
        true
    }

    open spec fn spec_default() -> LineUp {
        LineUp { slots: <[i32; 10]>::spec_default() }
    }

    fn write(&self, w: &mut Writer) {
        assert(self.slots.can_write());
        self.slots.write(w);
    }

    fn default_value() -> (d: LineUp) {
        LineUp { slots: <[i32; 10]>::default_value() }
    }

    proof fn lemma_default_writable() {
    }
}

impl Codec for LineUp {
    proof fn lemma_roundtrip(v: LineUp, rest: Seq<u8>) {
        assert(v.slots.can_write());
        <[i32; 10]>::lemma_roundtrip(v.slots, rest);
    }
}

/// Lineups: 1 before version 5, 3 before 10, then counted by a byte.
pub open spec fn lineups_length(gv: u32) -> VecArgsLength {
    if gv < 5 {
        VecArgsLength::Fixed(1)
    } else if gv < 10 {
        VecArgsLength::Fixed(3)
    } else {
        VecArgsLength::I8
    }
}

fn lineups_args(gv: u32) -> (a: VecArgsLength)
    ensures
        a == lineups_length(gv),
{
    if gv < 5 {
        VecArgsLength::Fixed(1)
    } else if gv < 10 {
        VecArgsLength::Fixed(3)
    } else {
        VecArgsLength::I8
    }
}

#[derive(Debug, Clone)]
pub struct LineUps {
    pub lineups: Vec<LineUp>,
}

impl LineUps {
    pub fn read(r: &mut Reader, args: GVCC) -> (res: StreamResult<Self>)
        ensures
            read_result_view(
                *old(r),
                *final(r),
                res,
                spec_read_vec::<LineUp>(lineups_length(args.gv.0), old(r).rest()),
                |x: Self| x.lineups@,
            ),
    {
        Ok(LineUps { lineups: read_counted::<LineUp>(r, lineups_args(args.gv.0))? })
    }

    pub fn write(&self, w: &mut Writer, args: GVCC)
        ensures
            final(w).bytes() == old(w).bytes() + spec_write_vec::<LineUp>(lineups_length(args.gv.0), self.lineups@),
    {
        write_counted::<LineUp>(w, &self.lineups, lineups_args(args.gv.0));
    }
}

/// Stamps: the current one, those collected, and the daily reward.
#[derive(Debug, Copy, Clone)]
pub struct StampData {
    pub current_stamp: i32,
    pub collected_stamps: [i32; 30],
    pub unknown: i32,
    pub daily_reward: i32,
}

pub type StampTuple = (i32, ([i32; 30], (i32, i32)));

impl Readable for StampData {
    open spec fn spec_read(bytes: Seq<u8>) -> Option<(StampData, int)> {
        match StampTuple::spec_read(bytes) {
            Some((t, k)) => Some(
                (StampData { current_stamp: t.0, collected_stamps: t.1.0, unknown: t.1.1.0, daily_reward: t.1.1.1 }, k),
            ),
            None => None,
        }
    }

    proof fn lemma_read_bounds(bytes: Seq<u8>) {
        StampTuple::lemma_read_bounds(bytes);
    }

    fn read(r: &mut Reader) -> (res: StreamResult<StampData>) {
        let (current_stamp, (collected_stamps, (unknown, daily_reward))) = StampTuple::read(r)?;
        Ok(StampData { current_stamp, collected_stamps, unknown, daily_reward })
    }
}

impl Writable for StampData {
    open spec fn spec_write(&self) -> Seq<u8> {
        (self.current_stamp, (self.collected_stamps, (self.unknown, self.daily_reward))).spec_write()
    }

    open spec fn can_write(&self) -> bool {
        true
    }

    open spec fn spec_default() -> StampData {
        StampData {
            current_stamp: 0,
            collected_stamps: <[i32; 30]>::spec_default(),
            unknown: 0,
            daily_reward: 0,
        }
    }

    fn write(&self, w: &mut Writer) {
        let t = (self.current_stamp, (self.collected_stamps, (self.unknown, self.daily_reward)));
        assert(t.can_write());
        t.write(w);
    }

    fn default_value() -> (d: StampData) {
        StampData { current_stamp: 0, collected_stamps: <[i32; 30]>::default_value(), unknown: 0, daily_reward: 0 }
    }

    proof fn lemma_default_writable() {
    }
}

impl Codec for StampData {
    proof fn lemma_roundtrip(v: StampData, rest: Seq<u8>) {
        let t = (v.current_stamp, (v.collected_stamps, (v.unknown, v.daily_reward)));
        assert(t.can_write());
        StampTuple::lemma_roundtrip(t, rest);
    }
}

/// The treasure festival of each story chapter.
#[derive(Debug, Copy, Clone)]
pub struct StoryTreasureFestival {
    pub time_until_chance: [i32; TOTAL_STORY_CHAPTERS],
    pub duration: [i32; TOTAL_STORY_CHAPTERS],
    pub value: [i32; TOTAL_STORY_CHAPTERS],
    pub stage: [i32; TOTAL_STORY_CHAPTERS],
    pub festival_type: [i32; TOTAL_STORY_CHAPTERS],
}

pub type FestivalTuple = (
    [i32; TOTAL_STORY_CHAPTERS],
    ([i32; TOTAL_STORY_CHAPTERS], ([i32; TOTAL_STORY_CHAPTERS], ([i32; TOTAL_STORY_CHAPTERS], [i32; TOTAL_STORY_CHAPTERS]))),
);

pub open spec fn festival_tuple(f: StoryTreasureFestival) -> FestivalTuple {
    (f.time_until_chance, (f.duration, (f.value, (f.stage, f.festival_type))))
}

pub open spec fn festival_from(t: FestivalTuple) -> StoryTreasureFestival {
    StoryTreasureFestival {
        time_until_chance: t.0,
        duration: t.1.0,
        value: t.1.1.0,
        stage: t.1.1.1.0,
        festival_type: t.1.1.1.1,
    }
}

impl Readable for StoryTreasureFestival {
    open spec fn spec_read(bytes: Seq<u8>) -> Option<(StoryTreasureFestival, int)> {
        match FestivalTuple::spec_read(bytes) {
            Some((t, k)) => Some((festival_from(t), k)),
            None => None,
        }
    }

    proof fn lemma_read_bounds(bytes: Seq<u8>) {
        FestivalTuple::lemma_read_bounds(bytes);
    }

    fn read(r: &mut Reader) -> (res: StreamResult<StoryTreasureFestival>) {
        let (time_until_chance, (duration, (value, (stage, festival_type)))) = FestivalTuple::read(r)?;
        Ok(StoryTreasureFestival { time_until_chance, duration, value, stage, festival_type })
    }
}

impl Writable for StoryTreasureFestival {
    open spec fn spec_write(&self) -> Seq<u8> {
        festival_tuple(*self).spec_write()
    }

    open spec fn can_write(&self) -> bool {
        true
    }

    open spec fn spec_default() -> StoryTreasureFestival {
        festival_from(FestivalTuple::spec_default())
    }

    fn write(&self, w: &mut Writer) {
        let t = (self.time_until_chance, (self.duration, (self.value, (self.stage, self.festival_type))));
        assert(t.can_write());
        t.write(w);
    }

    fn default_value() -> (d: StoryTreasureFestival) {
        let t = FestivalTuple::default_value();
        StoryTreasureFestival {
            time_until_chance: t.0,
            duration: t.1.0,
            value: t.1.1.0,
            stage: t.1.1.1.0,
            festival_type: t.1.1.1.1,
        }
    }

    proof fn lemma_default_writable() {
    }
}

impl Codec for StoryTreasureFestival {
    proof fn lemma_roundtrip(v: StoryTreasureFestival, rest: Seq<u8>) {
        assert(festival_tuple(v).can_write());
        FestivalTuple::lemma_roundtrip(festival_tuple(v), rest);
    }
}

/// The number of battle items.
pub const TOTAL_BATTLE_ITEMS: usize = 6;

/// Whether battle items are locked, as a whole and one by one.
#[derive(Debug, Copy, Clone)]
pub struct LockedBattleItems {
    pub lock_item: bool,
    pub locked_items: [bool; TOTAL_BATTLE_ITEMS],
}

impl Readable for LockedBattleItems {
    open spec fn spec_read(bytes: Seq<u8>) -> Option<(LockedBattleItems, int)> {
        match <(bool, [bool; TOTAL_BATTLE_ITEMS])>::spec_read(bytes) {
            Some((t, k)) => Some((LockedBattleItems { lock_item: t.0, locked_items: t.1 }, k)),
            None => None,
        }
    }

    proof fn lemma_read_bounds(bytes: Seq<u8>) {
        <(bool, [bool; TOTAL_BATTLE_ITEMS])>::lemma_read_bounds(bytes);
    }

    fn read(r: &mut Reader) -> (res: StreamResult<LockedBattleItems>) {
        let (lock_item, locked_items) = <(bool, [bool; TOTAL_BATTLE_ITEMS])>::read(r)?;
        Ok(LockedBattleItems { lock_item, locked_items })
    }
}

impl Writable for LockedBattleItems {
    open spec fn spec_write(&self) -> Seq<u8> {
        (self.lock_item, self.locked_items).spec_write()
    }

    open spec fn can_write(&self) -> bool {
        true
    }

    open spec fn spec_default() -> LockedBattleItems {
        LockedBattleItems { lock_item: false, locked_items: <[bool; TOTAL_BATTLE_ITEMS]>::spec_default() }
    }

    fn write(&self, w: &mut Writer) {
        let t = (self.lock_item, self.locked_items);
        assert(t.can_write());
        t.write(w);
    }

    fn default_value() -> (d: LockedBattleItems) {
        LockedBattleItems { lock_item: false, locked_items: <[bool; TOTAL_BATTLE_ITEMS]>::default_value() }
    }

    proof fn lemma_default_writable() {
    }
}

impl Codec for LockedBattleItems {
    proof fn lemma_roundtrip(v: LockedBattleItems, rest: Seq<u8>) {
        assert((v.lock_item, v.locked_items).can_write());
        <(bool, [bool; TOTAL_BATTLE_ITEMS])>::lemma_roundtrip((v.lock_item, v.locked_items), rest);
    }
}

/* Flags and choices */

/// Whether a save has the flag: outside Japan, or from version 10 on.
pub open spec fn ub1_present(g: GVCC) -> bool {
    g.cc != CountryCode::Jp || g.gv.0 >= 10
}

#[derive(Debug, Copy, Clone, PartialEq, Eq, Structural)]
pub struct Ub1(pub Option<bool>);

pub open spec fn spec_read_ub1(g: GVCC, bytes: Seq<u8>) -> Option<(Ub1, int)> {
    if ub1_present(g) {
        match bool::spec_read(bytes) {
            Some((b, k)) => Some((Ub1(Some(b)), k)),
            None => None,
        }
    } else {
        Some((Ub1(None), 0))
    }
}

/// A missing flag is written as `false`.
pub open spec fn spec_write_ub1(g: GVCC, u: Ub1) -> Seq<u8> {
    if ub1_present(g) {
        u.0.unwrap_or(false).spec_write()
    } else {
        Seq::empty()
    }
}

impl Ub1 {
    pub fn read(r: &mut Reader, args: GVCC) -> (res: StreamResult<Self>)
        ensures
            read_result(*old(r), *final(r), res, spec_read_ub1(args, old(r).rest())),
    {
        let _ = r.remaining();
        if args.cc != CountryCode::Jp || args.gv.0 >= 10 {
            Ok(Ub1(Some(bool::read(r)?)))
        } else {
            Ok(Ub1(None))
        }
    }

    pub fn write(&self, w: &mut Writer, args: GVCC)
        ensures
            final(w).bytes() == old(w).bytes() + spec_write_ub1(args, *self),
    {
        if args.cc != CountryCode::Jp || args.gv.0 >= 10 {
            let b = match self.0 {
                Some(b) => b,
                None => false,
            };
            b.write(w);
        } else {
            assert(w.bytes() =~= old(w).bytes() + Seq::<u8>::empty());
        }
    }
}

/// The state of the gacha: cooldowns and last rolls, and from version 2 on
/// the single and multi roll choices.
#[derive(Debug, Copy, Clone, PartialEq, Eq, Structural)]
pub struct GatyaData {
    pub stepup_stage_3_cooldown: i32,
    pub previous_normal_roll: i32,
    pub previous_normal_roll_type: i32,
    pub previous_rare_rool: i32,
    pub previous_rare_roll_type: i32,
    pub unknown: bool,
    pub roll_single: Option<bool>,
    pub roll_multi: Option<bool>,
}

pub type GatyaHead = (i32, (i32, (i32, (i32, (i32, bool)))));

pub open spec fn spec_read_gatya(g: GVCC, bytes: Seq<u8>) -> Option<(GatyaData, int)> {
    match GatyaHead::spec_read(bytes) {
        Some((h, k1)) => if g.gv.0 >= 2 {
            match <(bool, bool)>::spec_read(bytes.skip(k1)) {
                Some((t, k2)) => Some(
                    (
                        GatyaData {
                            stepup_stage_3_cooldown: h.0,
                            previous_normal_roll: h.1.0,
                            previous_normal_roll_type: h.1.1.0,
                            previous_rare_rool: h.1.1.1.0,
                            previous_rare_roll_type: h.1.1.1.1.0,
                            unknown: h.1.1.1.1.1,
                            roll_single: Some(t.0),
                            roll_multi: Some(t.1),
                        },
                        k1 + k2,
                    ),
                ),
                None => None,
            }
        } else {
            Some(
                (
                    GatyaData {
                        stepup_stage_3_cooldown: h.0,
                        previous_normal_roll: h.1.0,
                        previous_normal_roll_type: h.1.1.0,
                        previous_rare_rool: h.1.1.1.0,
                        previous_rare_roll_type: h.1.1.1.1.0,
                        unknown: h.1.1.1.1.1,
                        roll_single: None,
                        roll_multi: None,
                    },
                    k1,
                ),
            )
        },
        None => None,
    }
}

/// From version 2 on missing roll choices are written as `false`.
pub open spec fn spec_write_gatya(g: GVCC, d: GatyaData) -> Seq<u8> {
    (
        d.stepup_stage_3_cooldown,
        (
            d.previous_normal_roll,
            (d.previous_normal_roll_type, (d.previous_rare_rool, (d.previous_rare_roll_type, d.unknown))),
        ),
    ).spec_write() + if g.gv.0 >= 2 {
        (d.roll_single.unwrap_or(false), d.roll_multi.unwrap_or(false)).spec_write()
    } else {
        Seq::empty()
    }
}

impl GatyaData {
    pub fn read(r: &mut Reader, args: GVCC) -> (res: StreamResult<Self>)
        ensures
            read_result(*old(r), *final(r), res, spec_read_gatya(args, old(r).rest())),
    {
        let ghost start = *old(r);
        let _ = r.remaining();
        let h = GatyaHead::read(r)?;
        proof {
            GatyaHead::lemma_read_bounds(start.rest());
            Reader::lemma_rest_skip(start, *r);
        }
        let (roll_single, roll_multi) = if args.gv.0 >= 2 {
            let (a, b) = <(bool, bool)>::read(r)?;
            (Some(a), Some(b))
        } else {
            (None, None)
        };
        Ok(
            GatyaData {
                stepup_stage_3_cooldown: h.0,
                previous_normal_roll: h.1.0,
                previous_normal_roll_type: h.1.1.0,
                previous_rare_rool: h.1.1.1.0,
                previous_rare_roll_type: h.1.1.1.1.0,
                unknown: h.1.1.1.1.1,
                roll_single,
                roll_multi,
            },
        )
    }

    pub fn write(&self, w: &mut Writer, args: GVCC)
        ensures
            final(w).bytes() == old(w).bytes() + spec_write_gatya(args, *self),
    {
        let h = (
            self.stepup_stage_3_cooldown,
            (
                self.previous_normal_roll,
                (self.previous_normal_roll_type, (self.previous_rare_rool, (self.previous_rare_roll_type, self.unknown))),
            ),
        );
        h.write(w);
        if args.gv.0 >= 2 {
            let a = match self.roll_single {
                Some(a) => a,
                None => false,
            };
            let b = match self.roll_multi {
                Some(b) => b,
                None => false,
            };
            (a, b).write(w);
        }
        assert(w.bytes() =~= old(w).bytes() + spec_write_gatya(args, *self));
    }
}

/// Which slots are unlocked: ten flags before version 9.7, then a count.
#[derive(Debug, Copy, Clone)]
pub enum UnlockedSlots {
    Individual([bool; 10]),
    One(i8),
}

impl Default for UnlockedSlots {
    fn default() -> (u: Self)
        ensures
            u matches UnlockedSlots::One(n) && n == 0,
    {
        UnlockedSlots::One(0)
    }
}

/// How many of the flags a count turns on: the count, at most ten (a
/// negative count, widened to `usize`, is above ten).
pub open spec fn slots_on(n: i8) -> int {
    if n < 0 || n > 10 {
        10
    } else {
        n as int
    }
}

/// The number of flags that are on.
pub open spec fn count_on(s: Seq<bool>) -> nat
    decreases s.len(),
{
    if s.len() == 0 {
        0
    } else {
        count_on(s.drop_last()) + if s.last() {
            1nat
        } else {
            0nat
        }
    }
}

pub open spec fn spec_read_unlocked_slots(g: GVCC, bytes: Seq<u8>) -> Option<(UnlockedSlots, int)> {
    if g.gv.0 < 90700 {
        match <[bool; 10]>::spec_read(bytes) {
            Some((a, k)) => Some((UnlockedSlots::Individual(a), k)),
            None => None,
        }
    } else {
        match i8::spec_read(bytes) {
            Some((n, k)) => Some((UnlockedSlots::One(n), k)),
            None => None,
        }
    }
}

/// What is written: flags before version 9.7 (a count turns on that many of
/// the first ones), a count after (the number of flags on).
pub open spec fn spec_write_unlocked_slots(g: GVCC, u: UnlockedSlots) -> Seq<u8> {
    if g.gv.0 < 90700 {
        match u {
            UnlockedSlots::Individual(a) => a.spec_write(),
            UnlockedSlots::One(n) => write_list_bools(Seq::new(10, |i: int| i < slots_on(n))),
        }
    } else {
        match u {
            UnlockedSlots::Individual(a) => (count_on(a@) as i8).spec_write(),
            UnlockedSlots::One(n) => n.spec_write(),
        }
    }
}

pub open spec fn write_list_bools(s: Seq<bool>) -> Seq<u8> {
    crate::stream::lists::write_list(crate::stream::lists::item_writer::<bool>(), s)
}

fn count_flags(a: &[bool; 10]) -> (n: i8)
    ensures
        n == count_on(a@),
{
    let mut n: i8 = 0;
    let mut i: usize = 0;
    while i < 10
        invariant
            a@.len() == 10,
            i <= 10,
            n == count_on(a@.take(i as int)),
            n <= i,
        decreases 10 - i,
    {
        proof {
            assert(a@.take(i + 1).drop_last() =~= a@.take(i as int));
        }
        if a[i] {
            n = n + 1;
        }
        i = i + 1;
    }
    assert(a@.take(10) =~= a@);
    n
}

impl UnlockedSlots {
    pub fn read(r: &mut Reader, args: GVCC) -> (res: StreamResult<Self>)
        ensures
            read_result(*old(r), *final(r), res, spec_read_unlocked_slots(args, old(r).rest())),
    {
        if args.gv.0 < 90700 {
            Ok(UnlockedSlots::Individual(<[bool; 10]>::read(r)?))
        } else {
            Ok(UnlockedSlots::One(i8::read(r)?))
        }
    }

    pub fn write(&self, w: &mut Writer, args: GVCC)
        ensures
            final(w).bytes() == old(w).bytes() + spec_write_unlocked_slots(args, *self),
    {
        if args.gv.0 < 90700 {
            match self {
                UnlockedSlots::Individual(a) => {
                    assert(a.can_write());
                    a.write(w);
                },
                UnlockedSlots::One(o) => {
                    let times: usize = if *o < 0 || *o > 10 { 10 } else { *o as usize };
                    let mut individual = [false; 10];
                    let mut i: usize = 0;
                    while i < times
                        invariant
                            times <= 10,
                            i <= times,
                            forall|j: int| 0 <= j < 10 ==> individual@[j] == (j < i),
                        decreases times - i,
                    {
                        individual[i] = true;
                        i = i + 1;
                    }
                    assert(individual@ =~= Seq::new(10, |j: int| j < slots_on(*o)));
                    assert(individual.can_write());
                    individual.write(w);
                },
            }
        } else {
            match self {
                UnlockedSlots::Individual(a) => {
                    let one = count_flags(a);
                    one.write(w);
                },
                UnlockedSlots::One(o) => o.write(w),
            }
        }
    }
}

/* Counted pairs and grids */

/// The legend restriction grid: map types by subchapters; 3 by 150 before
/// version 33, 4 by 150 before 41, then stored as two 32-bit counts.
pub open spec fn legend_restriction_counts(gv: u32) -> Option<(i32, i32)> {
    if gv < 33 {
        Some((3, 150))
    } else if gv < 41 {
        Some((4, 150))
    } else {
        None
    }
}

pub open spec fn spec_read_legend_restriction(g: GVCC, bytes: Seq<u8>) -> Option<(Seq<Seq<i32>>, int)> {
    let counts = match legend_restriction_counts(g.gv.0) {
        Some(c) => Some((c, 0int)),
        None => match <(i32, i32)>::spec_read(bytes) {
            Some((c, k)) => Some((c, k)),
            None => None,
        },
    };
    match counts {
        Some((c, k1)) => if c.0 < 0 || c.1 < 0 {
            None
        } else {
            match spec_read_vec2::<i32>(
                VecArgsLength::Fixed(c.0 as usize),
                VecArgsLength::Fixed(c.1 as usize),
                bytes.skip(k1),
            ) {
                Some((g2, k2)) => Some((g2, k1 + k2)),
                None => None,
            }
        },
        None => None,
    }
}

pub open spec fn legend_first_len(s: Seq<Seq<i32>>) -> nat {
    if s.len() > 0 {
        s[0].len()
    } else {
        0
    }
}

/// Written with the counts the version fixes, or with the shape of the data
/// (map types, and the length of the first row) as two 32-bit counts.
pub open spec fn spec_write_legend_restriction(g: GVCC, s: Seq<Seq<i32>>) -> Seq<u8> {
    match legend_restriction_counts(g.gv.0) {
        Some(c) => spec_write_vec2::<i32>(
            VecArgsLength::Fixed(c.0 as usize),
            VecArgsLength::Fixed(c.1 as usize),
            s,
        ),
        None => ((s.len() as usize) as i32, (legend_first_len(s) as usize) as i32).spec_write()
            + spec_write_vec2::<i32>(
            VecArgsLength::Fixed(s.len() as usize),
            VecArgsLength::Fixed(legend_first_len(s) as usize),
            s,
        ),
    }
}

#[derive(Debug, Clone)]
pub struct EventStageLegendRestriction {
    pub legend_restriction: Vec<Vec<i32>>,
}

impl EventStageLegendRestriction {
    pub fn read(r: &mut Reader, args: GVCC) -> (res: StreamResult<Self>)
        ensures
            read_result_view(
                *old(r),
                *final(r),
                res,
                spec_read_legend_restriction(args, old(r).rest()),
                |x: Self| vec2_view()(x.legend_restriction),
            ),
    {
        let ghost start = *old(r);
        let _ = r.remaining();
        let pos = r.stream_position();
        let (a, b) = if args.gv.0 < 33 {
            (3i32, 150i32)
        } else if args.gv.0 < 41 {
            (4i32, 150i32)
        } else {
            let c = <(i32, i32)>::read(r)?;
            proof {
                <(i32, i32)>::lemma_read_bounds(start.rest());
            }
            c
        };
        proof {
            Reader::lemma_rest_skip(start, *r);
        }
        if a < 0 || b < 0 {
            return Err(StreamError::new(StreamErrorKind::NegativeLength, pos as u64));
        }
        let legend_restriction = read_vec2::<i32>(
            r,
            VecArgs { length: VecArgsLength::Fixed(a as usize), item: VecArgs::new_empty_fixed(b as usize) },
        )?;
        Ok(EventStageLegendRestriction { legend_restriction })
    }

    pub fn write(&self, w: &mut Writer, args: GVCC)
        ensures
            final(w).bytes() == old(w).bytes() + spec_write_legend_restriction(
                args,
                vec2_view()(self.legend_restriction),
            ),
    {
        let total_map_types = self.legend_restriction.len();
        let total_subchapters = if self.legend_restriction.len() > 0 {
            self.legend_restriction[0].len()
        } else {
            0
        };
        let (a, b) = if args.gv.0 < 33 {
            (3usize, 150usize)
        } else if args.gv.0 < 41 {
            (4usize, 150usize)
        } else {
            (total_map_types as i32, total_subchapters as i32).write(w);
            (total_map_types, total_subchapters)
        };
        let ghost mid = w.bytes();
        write_vec2::<i32>(w, &self.legend_restriction, VecArgs { length: VecArgsLength::Fixed(a), item: VecArgs::new_empty_fixed(b) });
        assert(w.bytes() =~= old(w).bytes() + spec_write_legend_restriction(args, vec2_view()(self.legend_restriction)));
    }
}

/// Cat storage: 100 slots before version 11.1, then a 16-bit count.
#[derive(Debug, Clone)]
pub struct CatStorage {
    pub item_ids: Vec<i32>,
    pub item_types: Vec<i32>,
}

pub open spec fn spec_read_cat_storage(g: GVCC, bytes: Seq<u8>) -> Option<((Seq<i32>, Seq<i32>), int)> {
    let count = if g.gv.0 < 110100 {
        Some((100i16, 0int))
    } else {
        i16::spec_read(bytes)
    };
    match count {
        Some((n, k1)) => if n < 0 {
            None
        } else {
            match spec_read_vec::<i32>(VecArgsLength::Fixed(n as usize), bytes.skip(k1)) {
                Some((ids, k2)) => match spec_read_vec::<i32>(VecArgsLength::Fixed(n as usize), bytes.skip(k1 + k2)) {
                    Some((types, k3)) => Some(((ids, types), k1 + k2 + k3)),
                    None => None,
                },
                None => None,
            }
        },
        None => None,
    }
}

/// Written with 100 slots, or with as many as there are ids, preceded by
/// that count as 16 bits.
pub open spec fn spec_write_cat_storage(g: GVCC, ids: Seq<i32>, types: Seq<i32>) -> Seq<u8> {
    if g.gv.0 < 110100 {
        spec_write_vec::<i32>(VecArgsLength::Fixed(100), ids) + spec_write_vec::<i32>(VecArgsLength::Fixed(100), types)
    } else {
        ((ids.len() as usize) as i16).spec_write() + spec_write_vec::<i32>(VecArgsLength::Fixed(ids.len() as usize), ids)
            + spec_write_vec::<i32>(VecArgsLength::Fixed(ids.len() as usize), types)
    }
}

impl CatStorage {
    pub fn read(r: &mut Reader, args: GVCC) -> (res: StreamResult<Self>)
        ensures
            read_result_view(
                *old(r),
                *final(r),
                res,
                spec_read_cat_storage(args, old(r).rest()),
                |x: Self| (x.item_ids@, x.item_types@),
            ),
    {
        let ghost start = *old(r);
        let _ = r.remaining();
        let pos = r.stream_position();
        let total: i16 = if args.gv.0 < 110100 {
            100
        } else {
            let n = i16::read(r)?;
            proof {
                i16::lemma_read_bounds(start.rest());
            }
            n
        };
        proof {
            Reader::lemma_rest_skip(start, *r);
        }
        if total < 0 {
            return Err(StreamError::new(StreamErrorKind::NegativeLength, pos as u64));
        }
        let ghost mid = *r;
        let length = VecArgsLength::Fixed(total as usize);
        let item_ids = read_counted::<i32>(r, length)?;
        proof {
            crate::stream::lists::lemma_vec_reader_bounded::<i32>(length);
            assert(crate::stream::lists::vec_reader::<i32>(length)(mid.rest()) == spec_read_vec::<i32>(
                length,
                mid.rest(),
            ));
            Reader::lemma_rest_skip(start, *r);
        }
        let item_types = read_counted::<i32>(r, length)?;
        Ok(CatStorage { item_ids, item_types })
    }

    pub fn write(&self, w: &mut Writer, args: GVCC)
        ensures
            final(w).bytes() == old(w).bytes() + spec_write_cat_storage(args, self.item_ids@, self.item_types@),
    {
        let total_storage = if args.gv.0 < 110100 {
            100
        } else {
            (self.item_ids.len() as i16).write(w);
            self.item_ids.len()
        };
        write_counted::<i32>(w, &self.item_ids, VecArgsLength::Fixed(total_storage));
        write_counted::<i32>(w, &self.item_types, VecArgsLength::Fixed(total_storage));
        assert(w.bytes() =~= old(w).bytes() + spec_write_cat_storage(args, self.item_ids@, self.item_types@));
    }
}

/// Two maps of variable-length numbers.
#[derive(Debug, Clone)]
pub struct BonusHash {
    pub unknown_1: HashMapLength<VariableLengthInt, VariableLengthInt>,
    pub unknown_2: HashMapLength<VariableLengthInt, u8>,
}

pub open spec fn spec_read_bonus_hash(bytes: Seq<u8>) -> Option<
    ((Seq<(VariableLengthInt, VariableLengthInt)>, Seq<(VariableLengthInt, u8)>), int),
> {
    match spec_read_map::<VariableLengthInt, VariableLengthInt>(VecArgsLength::VariableLengthInt, bytes) {
        Some((a, k1)) => match spec_read_map::<VariableLengthInt, u8>(VecArgsLength::VariableLengthInt, bytes.skip(k1)) {
            Some((b, k2)) => Some(((a, b), k1 + k2)),
            None => None,
        },
        None => None,
    }
}

impl BonusHash {
    pub fn read(r: &mut Reader) -> (res: StreamResult<Self>)
        ensures
            read_result_view(
                *old(r),
                *final(r),
                res,
                spec_read_bonus_hash(old(r).rest()),
                |x: Self| (x.unknown_1.0@, x.unknown_2.0@),
            ),
    {
        let ghost start = *old(r);
        let _ = r.remaining();
        let unknown_1 = HashMapLength::<VariableLengthInt, VariableLengthInt>::read(r, VecArgsLength::VariableLengthInt)?;
        proof {
            crate::stream::lists::lemma_vec_reader_bounded::<(VariableLengthInt, VariableLengthInt)>(
                VecArgsLength::VariableLengthInt,
            );
            assert(crate::stream::lists::vec_reader::<(VariableLengthInt, VariableLengthInt)>(
                VecArgsLength::VariableLengthInt,
            )(start.rest()) == spec_read_vec::<(VariableLengthInt, VariableLengthInt)>(
                VecArgsLength::VariableLengthInt,
                start.rest(),
            ));
            Reader::lemma_rest_skip(start, *r);
        }
        let unknown_2 = HashMapLength::<VariableLengthInt, u8>::read(r, VecArgsLength::VariableLengthInt)?;
        Ok(BonusHash { unknown_1, unknown_2 })
    }

    pub fn write(&self, w: &mut Writer)
        requires
            vec_writable(VecArgsLength::VariableLengthInt, self.unknown_1.0@),
            vec_writable(VecArgsLength::VariableLengthInt, self.unknown_2.0@),
        ensures
            final(w).bytes() == old(w).bytes() + spec_write_vec::<(VariableLengthInt, VariableLengthInt)>(
                VecArgsLength::VariableLengthInt,
                self.unknown_1.0@,
            ) + spec_write_vec::<(VariableLengthInt, u8)>(VecArgsLength::VariableLengthInt, self.unknown_2.0@),
    {
        self.unknown_1.write(w, VecArgsLength::VariableLengthInt);
        self.unknown_2.write(w, VecArgsLength::VariableLengthInt);
    }
}

/* What is left */

/// The bytes between the position and the hash at the end of a save.
#[derive(Debug, Clone)]
pub struct RemainingData {
    pub data: Vec<u8>,
}

/// All but the last 32 of the unread bytes; there must be 32.
pub open spec fn spec_read_remaining(bytes: Seq<u8>) -> Option<(Seq<u8>, int)> {
    if bytes.len() >= 32 {
        Some((bytes.take(bytes.len() - 32), bytes.len() - 32))
    } else {
        None
    }
}

impl RemainingData {
    pub fn read(r: &mut Reader) -> (res: StreamResult<Self>)
        ensures
            read_result_view(*old(r), *final(r), res, spec_read_remaining(old(r).rest()), |x: Self| x.data@),
    {
        let left = r.remaining();
        if left < 32 {
            return Err(r.end_error());
        }
        let data = r.read_bytes(left - 32)?;
        Ok(RemainingData { data })
    }

    pub fn write(&self, w: &mut Writer)
        ensures
            final(w).bytes() == old(w).bytes() + self.data@,
    {
        w.write_bytes(self.data.as_slice());
    }
}

/* Forms of cats */

/// The form of a cat.
#[derive(Debug, Copy, Clone, PartialEq, Eq, Structural, Hash)]
pub enum Form {
    First,
    Second,
    Third,
    Fourth,
}

impl Default for Form {
    fn default() -> (f: Self)
        ensures
            f == Form::First,
    {
        Form::First
    }
}

/// The number a form is stored as: 0 to 3.
pub open spec fn form_number(f: Form) -> i32 {
    match f {
        Form::First => 0,
        Form::Second => 1,
        Form::Third => 2,
        Form::Fourth => 3,
    }
}

/// The form a number stands for.
pub open spec fn form_of(v: int) -> Option<Form> {
    if v == 0 {
        Some(Form::First)
    } else if v == 1 {
        Some(Form::Second)
    } else if v == 2 {
        Some(Form::Third)
    } else if v == 3 {
        Some(Form::Fourth)
    } else {
        None
    }
}

/// Why a number is not a form.
pub open spec fn invalid_form_text(value: int) -> Seq<char> {
    "invalid form type: "@ + crate::text::signed_decimal(value)
}

fn invalid_form_message(value: i32) -> (s: String)
    ensures
        s@ == invalid_form_text(value as int),
{
    let mut s = "invalid form type: ".to_owned();
    let n = crate::text::i32_decimal_string(value);
    s.append(n.as_str());
    s
}

impl Form {
    pub fn into_i32(self) -> (v: i32)
        ensures
            v == form_number(self),
    {
        match self {
            Form::First => 0,
            Form::Second => 1,
            Form::Third => 2,
            Form::Fourth => 3,
        }
    }

    /// The form a number stands for; numbers outside 0 to 3 are refused.
    pub fn try_from_i32(value: i32) -> (res: Result<Form, String>)
        ensures
            match res {
                Ok(f) => form_of(value as int) == Some(f),
                Err(e) => form_of(value as int) is None && e@ == invalid_form_text(value as int),
            },
    {
        match value {
            0 => Ok(Form::First),
            1 => Ok(Form::Second),
            2 => Ok(Form::Third),
            3 => Ok(Form::Fourth),
            _ => Err(invalid_form_message(value)),
        }
    }

    pub fn try_from_i16(value: i16) -> (res: Result<Form, String>)
        ensures
            match res {
                Ok(f) => form_of(value as int) == Some(f),
                Err(e) => form_of(value as int) is None && e@ == invalid_form_text(value as int),
            },
    {
        Form::try_from_i32(value as i32)
    }

    pub fn try_from_i8(value: i8) -> (res: Result<Form, String>)
        ensures
            match res {
                Ok(f) => form_of(value as int) == Some(f),
                Err(e) => form_of(value as int) is None && e@ == invalid_form_text(value as int),
            },
    {
        Form::try_from_i32(value as i32)
    }
}

/// A form's number reads back as the form.
pub proof fn lemma_form_number(f: Form)
    ensures
        form_of(form_number(f) as int) == Some(f),
{
}

fn form_error(v: i32, pos: usize) -> (e: StreamError)
    ensures
        e.kind == StreamErrorKind::InvalidForm(v),
{
    StreamError::new(StreamErrorKind::InvalidForm(v), pos as u64)
}

/// A form stored as a 32-bit number.
#[derive(Debug, Copy, Clone, PartialEq, Eq, Structural, Hash)]
pub struct Formi32(pub Form);

/// A form stored as a 16-bit number.
#[derive(Debug, Copy, Clone, PartialEq, Eq, Structural, Hash)]
pub struct Formi16(pub Form);

/// A form stored as a byte.
#[derive(Debug, Copy, Clone, PartialEq, Eq, Structural, Hash)]
pub struct Formi8(pub Form);

impl Readable for Formi32 {
    open spec fn spec_read(bytes: Seq<u8>) -> Option<(Formi32, int)> {
        match i32::spec_read(bytes) {
            Some((v, k)) => match form_of(v as int) {
                Some(f) => Some((Formi32(f), k)),
                None => None,
            },
            None => None,
        }
    }

    proof fn lemma_read_bounds(bytes: Seq<u8>) {
        i32::lemma_read_bounds(bytes);
    }

    fn read(r: &mut Reader) -> (res: StreamResult<Formi32>) {
        let pos = r.stream_position();
        let v = i32::read(r)?;
        match Form::try_from_i32(v) {
            Ok(f) => Ok(Formi32(f)),
            Err(_) => Err(form_error(v, pos)),
        }
    }
}

impl Writable for Formi32 {
    open spec fn spec_write(&self) -> Seq<u8> {
        form_number(self.0).spec_write()
    }

    open spec fn can_write(&self) -> bool {
        true
    }

    open spec fn spec_default() -> Formi32 {
        Formi32(Form::First)
    }

    fn write(&self, w: &mut Writer) {
        self.0.into_i32().write(w);
    }

    fn default_value() -> (d: Formi32) {
        Formi32(Form::First)
    }

    proof fn lemma_default_writable() {
    }
}

impl Codec for Formi32 {
    proof fn lemma_roundtrip(v: Formi32, rest: Seq<u8>) {
        i32::lemma_roundtrip(form_number(v.0), rest);
    }
}

impl Readable for Formi16 {
    open spec fn spec_read(bytes: Seq<u8>) -> Option<(Formi16, int)> {
        match i16::spec_read(bytes) {
            Some((v, k)) => match form_of(v as int) {
                Some(f) => Some((Formi16(f), k)),
                None => None,
            },
            None => None,
        }
    }

    proof fn lemma_read_bounds(bytes: Seq<u8>) {
        i16::lemma_read_bounds(bytes);
    }

    fn read(r: &mut Reader) -> (res: StreamResult<Formi16>) {
        let pos = r.stream_position();
        let v = i16::read(r)?;
        match Form::try_from_i16(v) {
            Ok(f) => Ok(Formi16(f)),
            Err(_) => Err(form_error(v as i32, pos)),
        }
    }
}

impl Writable for Formi16 {
    open spec fn spec_write(&self) -> Seq<u8> {
        (form_number(self.0) as i16).spec_write()
    }

    open spec fn can_write(&self) -> bool {
        true
    }

    open spec fn spec_default() -> Formi16 {
        Formi16(Form::First)
    }

    fn write(&self, w: &mut Writer) {
        (self.0.into_i32() as i16).write(w);
    }

    fn default_value() -> (d: Formi16) {
        Formi16(Form::First)
    }

    proof fn lemma_default_writable() {
    }
}

impl Codec for Formi16 {
    proof fn lemma_roundtrip(v: Formi16, rest: Seq<u8>) {
        i16::lemma_roundtrip(form_number(v.0) as i16, rest);
    }
}

impl Readable for Formi8 {
    open spec fn spec_read(bytes: Seq<u8>) -> Option<(Formi8, int)> {
        match i8::spec_read(bytes) {
            Some((v, k)) => match form_of(v as int) {
                Some(f) => Some((Formi8(f), k)),
                None => None,
            },
            None => None,
        }
    }

    proof fn lemma_read_bounds(bytes: Seq<u8>) {
        i8::lemma_read_bounds(bytes);
    }

    fn read(r: &mut Reader) -> (res: StreamResult<Formi8>) {
        let pos = r.stream_position();
        let v = i8::read(r)?;
        match Form::try_from_i8(v) {
            Ok(f) => Ok(Formi8(f)),
            Err(_) => Err(form_error(v as i32, pos)),
        }
    }
}

impl Writable for Formi8 {
    open spec fn spec_write(&self) -> Seq<u8> {
        (form_number(self.0) as i8).spec_write()
    }

    open spec fn can_write(&self) -> bool {
        true
    }

    open spec fn spec_default() -> Formi8 {
        Formi8(Form::First)
    }

    fn write(&self, w: &mut Writer) {
        (self.0.into_i32() as i8).write(w);
    }

    fn default_value() -> (d: Formi8) {
        Formi8(Form::First)
    }

    proof fn lemma_default_writable() {
    }
}

impl Codec for Formi8 {
    proof fn lemma_roundtrip(v: Formi8, rest: Seq<u8>) {
        i8::lemma_roundtrip(form_number(v.0) as i8, rest);
    }
}


/* Time information outside Japan */

/// Three timestamps (the bits of the `f64`s they are stored as), a list of
/// strings counted by an `i32`, the energy notification flag and the full
/// game version.
#[derive(Debug, Clone)]
pub struct SomeTimeInfo {
    pub timestamp: u64,
    pub server_time_stamp: u64,
    pub get_time_save: u64,
    pub usl1: Vec<LengthString>,
    pub energy_notification: bool,
    pub full_game_version: i32,
}

pub type SomeTimeInfoView = ((u64, (u64, u64)), Seq<Seq<char>>, (bool, i32));

pub open spec fn some_time_info_view(x: SomeTimeInfo) -> SomeTimeInfoView {
    (
        (x.timestamp, (x.server_time_stamp, x.get_time_save)),
        models(x.usl1@),
        (x.energy_notification, x.full_game_version),
    )
}

/// What reading the time information yields.
pub open spec fn spec_read_some_time_info(bytes: Seq<u8>) -> Option<(SomeTimeInfoView, int)> {
    match <(u64, (u64, u64))>::spec_read(bytes) {
        Some((t, k1)) => match spec_read_models::<LengthString>(VecArgsLength::I32, bytes.skip(k1)) {
            Some((l, k2)) => match <(bool, i32)>::spec_read(bytes.skip(k1 + k2)) {
                Some((e, k3)) => Some(((t, l, e), k1 + k2 + k3)),
                None => None,
            },
            None => None,
        },
        None => None,
    }
}

/// The bytes of the time information.
pub open spec fn spec_write_some_time_info(v: SomeTimeInfoView) -> Seq<u8> {
    v.0.spec_write() + spec_write_models::<LengthString>(VecArgsLength::I32, v.1) + v.2.spec_write()
}

impl SomeTimeInfo {
    pub fn read(r: &mut Reader) -> (res: StreamResult<Self>)
        ensures
            read_result_view(*old(r), *final(r), res, spec_read_some_time_info(old(r).rest()), |x: Self| some_time_info_view(x)),
    {
        let ghost start = *old(r);
        let _ = r.remaining();
        let (timestamp, (server_time_stamp, get_time_save)) = <(u64, (u64, u64))>::read(r)?;
        proof {
            <(u64, (u64, u64))>::lemma_read_bounds(start.rest());
            Reader::lemma_rest_skip(start, *r);
        }
        let usl1 = read_models::<LengthString>(r, VecArgsLength::I32)?;
        proof {
            Reader::lemma_rest_skip(start, *r);
        }
        let (energy_notification, full_game_version) = <(bool, i32)>::read(r)?;
        Ok(SomeTimeInfo { timestamp, server_time_stamp, get_time_save, usl1, energy_notification, full_game_version })
    }

    pub fn write(&self, w: &mut Writer)
        ensures
            final(w).bytes() == old(w).bytes() + spec_write_some_time_info(some_time_info_view(*self)),
    {
        (self.timestamp, (self.server_time_stamp, self.get_time_save)).write(w);
        write_models::<LengthString>(w, &self.usl1, VecArgsLength::I32);
        (self.energy_notification, self.full_game_version).write(w);
        assert(w.bytes() =~= old(w).bytes() + spec_write_some_time_info(some_time_info_view(*self)));
    }
}

/// Written time information reads back as itself, where the list's count
/// fits an `i32`.
pub proof fn lemma_some_time_info_roundtrip(v: SomeTimeInfoView, rest: Seq<u8>)
    requires
        v.1.len() <= i32::MAX,
        forall|i: int| 0 <= i < v.1.len() ==> encode_utf8(#[trigger] v.1[i]).len() <= i32::MAX,
    ensures
        spec_read_some_time_info(spec_write_some_time_info(v) + rest) == Some(
            (v, spec_write_some_time_info(v).len() as int),
        ),
{
    let w0 = v.0.spec_write();
    let w1 = spec_write_models::<LengthString>(VecArgsLength::I32, v.1);
    let w2 = v.2.spec_write();
    let all = spec_write_some_time_info(v) + rest;
    assert(all =~= w0 + (w1 + w2 + rest));
    <(u64, (u64, u64))>::lemma_roundtrip(v.0, w1 + w2 + rest);
    assert(all.skip(w0.len() as int) =~= w1 + (w2 + rest));
    lemma_models_roundtrip::<LengthString>(VecArgsLength::I32, v.1, w2 + rest);
    assert(fixed_items(v.1, v.1.len(), Seq::<char>::empty()) =~= v.1);
    assert(all.skip((w0.len() + w1.len()) as int) =~= w2 + rest);
    <(bool, i32)>::lemma_roundtrip(v.2, rest);
}

} // verus!
