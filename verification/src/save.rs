//! The parts of a save that the save format is made of, each with how it is
//! read and written for a given game version and region.

pub mod chapters;
pub mod event;
pub mod fields;

pub use self::chapters::{ChaptersGeneric, GenericChapterArgs, LengthType, StageRecord, TotalStages};
pub use self::event::{EventChapter, EventChapters, EventChaptersT};
pub use self::fields::{
    get_total_cats_from_gv, BonusHash, CatStorage, CatsField, EnemyGuide, EventStageLegendRestriction,
    Form, Formi16, Formi32, Formi8, GatyaData, LineUp, LineUps, LockedBattleItems, MenuUnlocks1,
    NewDialogs, RemainingData, StampData, StoryTreasureFestival, Ub1, Ubl1, UnitDrops,
    UnknownEarlyBoolList, UnlockPopups8, UnlockedSlots, Upgrade, UserRankRewards,
    TOTAL_BATTLE_ITEMS,
};

use vstd::prelude::*;
use crate::country_code::CountryCode;
use crate::game_version::GameVersion;
use crate::stream::{Codec, Readable, Reader, StreamResult, Writable, Writer};
use crate::stream::lists::{
    all_writable, item_reader, item_writer, lemma_items_roundtrip, read_items, read_list,
    write_items, write_list,
};

verus! {

/// The game version and region of a save, which decide its layout.
#[derive(Debug, Clone, Copy, PartialEq, Eq, Structural, Hash)]
pub struct GVCC {
    pub cc: CountryCode,
    pub gv: GameVersion,
}

/// Whether dates carry a daylight-saving flag: outside Japan, from version 49 on.
pub open spec fn spec_should_read_dst(g: GVCC) -> bool {
    g.cc != CountryCode::Jp && g.gv.0 >= 49
}

impl GVCC {
    pub fn should_read_dst(&self) -> (b: bool)
        ensures
            b == spec_should_read_dst(*self),
    {
        self.cc != CountryCode::Jp && self.gv.0 >= 49
    }
}

/* Dates */

#[derive(Debug, Clone, Copy, PartialEq, Eq, Structural)]
pub struct DateTime {
    pub year: i32,
    pub month: i32,
    pub day: i32,
    pub hour: i32,
    pub minute: i32,
    pub second: i32,
}

/// The fields of a date and time in the order they are stored.
pub open spec fn datetime_fields(d: DateTime) -> Seq<i32> {
    seq![d.year, d.month, d.day, d.hour, d.minute, d.second]
}

/// The date and time that six stored numbers stand for.
pub open spec fn datetime_from(v: Seq<i32>) -> DateTime {
    DateTime { year: v[0], month: v[1], day: v[2], hour: v[3], minute: v[4], second: v[5] }
}

impl Readable for DateTime {
    open spec fn spec_read(bytes: Seq<u8>) -> Option<(DateTime, int)> {
        match read_list(item_reader::<i32>(), bytes, 6) {
            Some((v, k)) => Some((datetime_from(v), k)),
            None => None,
        }
    }

    proof fn lemma_read_bounds(bytes: Seq<u8>) {
        crate::stream::lists::lemma_item_reader_bounded::<i32>();
        crate::stream::lists::lemma_read_list_bounds(item_reader::<i32>(), bytes, 6);
    }

    fn read(r: &mut Reader) -> (res: StreamResult<DateTime>) {
        let ghost bytes = old(r).rest();
        let v = read_items::<i32>(r, 6)?;
        proof {
            crate::stream::lists::lemma_item_reader_bounded::<i32>();
            crate::stream::lists::lemma_read_list_bounds(item_reader::<i32>(), bytes, 6);
        }
        Ok(DateTime { year: v[0], month: v[1], day: v[2], hour: v[3], minute: v[4], second: v[5] })
    }
}

impl Writable for DateTime {
    open spec fn spec_write(&self) -> Seq<u8> {
        write_list(item_writer::<i32>(), datetime_fields(*self))
    }

    open spec fn can_write(&self) -> bool {
        true
    }

    open spec fn spec_default() -> DateTime {
        DateTime { year: 0, month: 0, day: 0, hour: 0, minute: 0, second: 0 }
    }

    fn write(&self, w: &mut Writer) {
        let v: Vec<i32> = vec![self.year, self.month, self.day, self.hour, self.minute, self.second];
        assert(v@ =~= datetime_fields(*self));
        write_items(w, v.as_slice());
    }

    fn default_value() -> (d: DateTime) {
        DateTime { year: 0, month: 0, day: 0, hour: 0, minute: 0, second: 0 }
    }

    proof fn lemma_default_writable() {
    }
}

impl Codec for DateTime {
    proof fn lemma_roundtrip(v: DateTime, rest: Seq<u8>) {
        lemma_items_roundtrip::<i32>(datetime_fields(v), rest);
        assert(datetime_from(datetime_fields(v)) == v);
    }
}

#[derive(Debug, Clone, Copy, PartialEq, Eq, Structural)]
pub struct Date {
    pub year: i32,
    pub month: i32,
    pub day: i32,
}

/// A date and time, with a daylight-saving flag where the layout has one.
#[derive(Debug, Clone, Copy, PartialEq, Eq, Structural)]
pub struct DateTimeDst {
    pub dst: Option<bool>,
    pub datetime: DateTime,
}

pub open spec fn spec_read_datetime_dst(g: GVCC, bytes: Seq<u8>) -> Option<(DateTimeDst, int)> {
    if spec_should_read_dst(g) {
        match bool::spec_read(bytes) {
            Some((d, k1)) => match DateTime::spec_read(bytes.skip(k1)) {
                Some((dt, k2)) => Some((DateTimeDst { dst: Some(d), datetime: dt }, k1 + k2)),
                None => None,
            },
            None => None,
        }
    } else {
        match DateTime::spec_read(bytes) {
            Some((dt, k)) => Some((DateTimeDst { dst: None, datetime: dt }, k)),
            None => None,
        }
    }
}

/// A missing flag is written as `false`.
pub open spec fn spec_write_datetime_dst(g: GVCC, d: DateTimeDst) -> Seq<u8> {
    if spec_should_read_dst(g) {
        d.dst.unwrap_or(false).spec_write() + d.datetime.spec_write()
    } else {
        d.datetime.spec_write()
    }
}

impl DateTimeDst {
    pub fn read(r: &mut Reader, args: GVCC) -> (res: StreamResult<DateTimeDst>)
        ensures
            crate::stream::read_result(*old(r), *final(r), res, spec_read_datetime_dst(args, old(r).rest())),
    {
        let ghost bytes = old(r).rest();
        let _ = r.remaining();
        let dst = if args.should_read_dst() {
            let d = bool::read(r)?;
            proof {
                Reader::lemma_rest_skip(*old(r), *r);
            }
            Some(d)
        } else {
            None
        };
        let datetime = DateTime::read(r)?;
        Ok(DateTimeDst { dst, datetime })
    }

    pub fn write(&self, w: &mut Writer, args: GVCC)
        ensures
            final(w).bytes() == old(w).bytes() + spec_write_datetime_dst(args, *self),
    {
        if args.should_read_dst() {
            let d = match self.dst {
                Some(d) => d,
                None => false,
            };
            d.write(w);
        }
        self.datetime.write(w);
        assert(w.bytes() =~= old(w).bytes() + spec_write_datetime_dst(args, *self));
    }
}

/// The main date of a save: a date and time, a plain date and a timestamp,
/// interleaved as the format lays them out. The timestamp is kept as the bits
/// of the `f64` it is stored as.
#[derive(Debug, Clone, Copy, PartialEq, Eq, Structural)]
pub struct MainDate {
    pub datetime: DateTimeDst,
    pub timestamp: u64,
    pub date: Date,
}

/// The first six numbers of a main date: year, year, month, month, day, day.
pub open spec fn main_date_head(m: MainDate) -> Seq<i32> {
    seq![
        m.datetime.datetime.year,
        m.date.year,
        m.datetime.datetime.month,
        m.date.month,
        m.datetime.datetime.day,
        m.date.day,
    ]
}

/// The three numbers after the timestamp: hour, minute, second.
pub open spec fn main_date_tail(m: MainDate) -> Seq<i32> {
    seq![m.datetime.datetime.hour, m.datetime.datetime.minute, m.datetime.datetime.second]
}

pub open spec fn main_date_from(head: Seq<i32>, ts: u64, tail: Seq<i32>, dst: Option<bool>) -> MainDate {
    MainDate {
        datetime: DateTimeDst {
            dst,
            datetime: DateTime {
                year: head[0],
                month: head[2],
                day: head[4],
                hour: tail[0],
                minute: tail[1],
                second: tail[2],
            },
        },
        timestamp: ts,
        date: Date { year: head[1], month: head[3], day: head[5] },
    }
}

pub open spec fn spec_read_main_date(g: GVCC, bytes: Seq<u8>) -> Option<(MainDate, int)> {
    match read_list(item_reader::<i32>(), bytes, 6) {
        Some((head, k1)) => match u64::spec_read(bytes.skip(k1)) {
            Some((ts, k2)) => match read_list(item_reader::<i32>(), bytes.skip(k1 + k2), 3) {
                Some((tail, k3)) => if spec_should_read_dst(g) {
                    match bool::spec_read(bytes.skip(k1 + k2 + k3)) {
                        Some((d, k4)) => Some((main_date_from(head, ts, tail, Some(d)), k1 + k2 + k3 + k4)),
                        None => None,
                    }
                } else {
                    Some((main_date_from(head, ts, tail, None), k1 + k2 + k3))
                },
                None => None,
            },
            None => None,
        },
        None => None,
    }
}

pub open spec fn spec_write_main_date(g: GVCC, m: MainDate) -> Seq<u8> {
    write_list(item_writer::<i32>(), main_date_head(m)) + m.timestamp.spec_write() + write_list(
        item_writer::<i32>(),
        main_date_tail(m),
    ) + if spec_should_read_dst(g) {
        m.datetime.dst.unwrap_or(false).spec_write()
    } else {
        Seq::empty()
    }
}

impl MainDate {
    pub fn read(r: &mut Reader, args: GVCC) -> (res: StreamResult<MainDate>)
        ensures
            crate::stream::read_result(*old(r), *final(r), res, spec_read_main_date(args, old(r).rest())),
    {
        let ghost bytes = old(r).rest();
        let _ = r.remaining();
        proof {
            crate::stream::lists::lemma_item_reader_bounded::<i32>();
        }
        let head = read_items::<i32>(r, 6)?;
        let ghost r1 = *r;
        proof {
            crate::stream::lists::lemma_read_list_bounds(item_reader::<i32>(), bytes, 6);
            Reader::lemma_rest_skip(*old(r), r1);
        }
        let timestamp = u64::read(r)?;
        let ghost r2 = *r;
        proof {
            Reader::lemma_rest_skip(r1, r2);
            Reader::lemma_rest_skip(*old(r), r2);
            let k1 = r1.position() - old(r).position();
            let k2 = r2.position() - r1.position();
            assert(bytes.skip(k1).skip(k2) =~= bytes.skip(k1 + k2));
        }
        let tail = read_items::<i32>(r, 3)?;
        let ghost r3 = *r;
        proof {
            crate::stream::lists::lemma_read_list_bounds(item_reader::<i32>(), r2.rest(), 3);
            Reader::lemma_rest_skip(r2, r3);
            Reader::lemma_rest_skip(*old(r), r3);
        }
        let dst = if args.should_read_dst() {
            Some(bool::read(r)?)
        } else {
            None
        };
        Ok(MainDate {
            datetime: DateTimeDst {
                dst,
                datetime: DateTime {
                    year: head[0],
                    month: head[2],
                    day: head[4],
                    hour: tail[0],
                    minute: tail[1],
                    second: tail[2],
                },
            },
            timestamp,
            date: Date { year: head[1], month: head[3], day: head[5] },
        })
    }

    pub fn write(&self, w: &mut Writer, args: GVCC)
        ensures
            final(w).bytes() == old(w).bytes() + spec_write_main_date(args, *self),
    {
        let head: Vec<i32> = vec![
            self.datetime.datetime.year,
            self.date.year,
            self.datetime.datetime.month,
            self.date.month,
            self.datetime.datetime.day,
            self.date.day,
        ];
        assert(head@ =~= main_date_head(*self));
        write_items(w, head.as_slice());
        self.timestamp.write(w);
        let tail: Vec<i32> = vec![
            self.datetime.datetime.hour,
            self.datetime.datetime.minute,
            self.datetime.datetime.second,
        ];
        assert(tail@ =~= main_date_tail(*self));
        write_items(w, tail.as_slice());
        let ghost mid = w.bytes();
        if args.should_read_dst() {
            let d = match self.datetime.dst {
                Some(d) => d,
                None => false,
            };
            d.write(w);
        }
        assert(w.bytes() =~= old(w).bytes() + spec_write_main_date(args, *self));
    }
}

} // verus!
