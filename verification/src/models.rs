//! The Clockify records the client works with, as plain values. Points in
//! time are whole seconds since the Unix epoch (UTC), which is what the API's
//! second-precision timestamps carry.

use crate::calendar::{max_day_number, min_day_number};
use vstd::prelude::*;
use vstd::utf8::encode_utf8;

verus! {

/// Day number of 1970-01-01.
pub open spec fn unix_epoch_day() -> int {
    719162
}

/// The instants `chrono::DateTime<Utc>` represents, in seconds since the epoch.
pub open spec fn timestamp_in_range(t: int) -> bool {
    (min_day_number() - unix_epoch_day()) * 86400 <= t <= (max_day_number() - unix_epoch_day())
        * 86400 + 86399
}

#[derive(Debug, Clone)]
pub struct User {
    pub id: String,
    pub name: String,
    pub email: String,
    pub active_workspace: Option<String>,
    pub default_workspace: Option<String>,
}

#[derive(Debug)]
pub struct Workspace {
    pub id: String,
    pub name: String,
}

#[derive(Debug)]
pub struct Project {
    pub id: String,
    pub name: String,
    pub client_name: Option<String>,
    pub billable: bool,
    pub archived: bool,
    /// Hex color like "#4CAF50", as configured in Clockify.
    pub color: Option<String>,
}

#[derive(Debug)]
pub struct Task {
    pub id: String,
    pub name: String,
    pub status: Option<String>,
}

#[derive(Debug, Clone, Copy, PartialEq, Eq)]
pub struct TimeInterval {
    pub start: i64,
    pub end: Option<i64>,
}

impl TimeInterval {
    /// Both ends are instants chrono can represent.
    pub open spec fn wf(self) -> bool {
        &&& timestamp_in_range(self.start as int)
        &&& self.end matches Some(e) ==> timestamp_in_range(e as int)
    }
}

#[derive(Debug)]
pub struct TimeEntry {
    pub id: String,
    pub description: String,
    pub project_id: Option<String>,
    pub task_id: Option<String>,
    pub time_interval: TimeInterval,
}

/// `chrono::Utc::now().timestamp()`: the current instant. Only its range is
/// stated: the value comes from the system clock.
#[verifier::external_body]
pub(crate) fn utc_now() -> (r: i64)
    ensures
        timestamp_in_range(r as int),
{
    chrono::Utc::now().timestamp()
}

impl TimeEntry {
    /// Whether the timer of this entry is still running.
    pub open spec fn is_running(self) -> bool {
        self.time_interval.end is None
    }

    /// Length in seconds of an entry, a running one measured up to `now`.
    pub open spec fn seconds_until(self, now: int) -> int {
        match self.time_interval.end {
            Some(e) => e - self.time_interval.start,
            None => now - self.time_interval.start,
        }
    }

    /// Length in seconds, a running entry measured up to `now`.
    pub fn duration_at(&self, now: i64) -> (r: i64)
        requires
            self.time_interval.wf(),
            timestamp_in_range(now as int),
        ensures
            r == self.seconds_until(now as int),
    {
        match self.time_interval.end {
            Some(e) => e - self.time_interval.start,
            None => now - self.time_interval.start,
        }
    }

    /// Length in seconds; a running entry is measured up to the current time.
    pub fn duration(&self) -> (r: i64)
        requires
            self.time_interval.wf(),
        ensures
            self.time_interval.end matches Some(e) ==> r == e - self.time_interval.start,
            self.time_interval.end is None ==> exists|now: int|
                timestamp_in_range(now) && r == now - self.time_interval.start,
    {
        let now = utc_now();
        self.duration_at(now)
    }
}


impl Clone for Workspace {
    fn clone(&self) -> (r: Self)
        ensures
            r == *self,
    {
        Workspace { id: self.id.clone(), name: self.name.clone() }
    }
}

fn clone_opt_string(s: &Option<String>) -> (r: Option<String>)
    ensures
        r == *s,
{
    match s {
        Some(t) => Some(t.clone()),
        None => None,
    }
}

impl Clone for Project {
    fn clone(&self) -> (r: Self)
        ensures
            r == *self,
    {
        Project {
            id: self.id.clone(),
            name: self.name.clone(),
            client_name: clone_opt_string(&self.client_name),
            billable: self.billable,
            archived: self.archived,
            color: clone_opt_string(&self.color),
        }
    }
}

impl Clone for TimeEntry {
    fn clone(&self) -> (r: Self)
        ensures
            r == *self,
    {
        TimeEntry {
            id: self.id.clone(),
            description: self.description.clone(),
            project_id: clone_opt_string(&self.project_id),
            task_id: clone_opt_string(&self.task_id),
            time_interval: self.time_interval,
        }
    }
}

impl Clone for Task {
    fn clone(&self) -> (r: Self)
        ensures
            r == *self,
    {
        Task { id: self.id.clone(), name: self.name.clone(), status: clone_opt_string(&self.status) }
    }
}

impl crate::resolve::Named for Workspace {
    open spec fn id_view(&self) -> Seq<char> {
        self.id@
    }

    open spec fn name_view(&self) -> Seq<char> {
        self.name@
    }

    fn id_str(&self) -> (r: &str) {
        self.id.as_str()
    }

    fn name_str(&self) -> (r: &str) {
        self.name.as_str()
    }
}

impl crate::resolve::Named for Project {
    open spec fn id_view(&self) -> Seq<char> {
        self.id@
    }

    open spec fn name_view(&self) -> Seq<char> {
        self.name@
    }

    fn id_str(&self) -> (r: &str) {
        self.id.as_str()
    }

    fn name_str(&self) -> (r: &str) {
        self.name.as_str()
    }
}

impl crate::resolve::Named for Task {
    open spec fn id_view(&self) -> Seq<char> {
        self.id@
    }

    open spec fn name_view(&self) -> Seq<char> {
        self.name@
    }

    fn id_str(&self) -> (r: &str) {
        self.id.as_str()
    }

    fn name_str(&self) -> (r: &str) {
        self.name.as_str()
    }
}


/// An ASCII hexadecimal digit, as a byte.
pub open spec fn is_hex_byte(b: u8) -> bool {
    (0x30 <= b <= 0x39) || (0x61 <= b <= 0x66) || (0x41 <= b <= 0x46)
}

/// The value of a hexadecimal digit byte.
pub open spec fn hex_value(b: u8) -> int {
    if 0x30 <= b <= 0x39 {
        b - 0x30
    } else if 0x61 <= b <= 0x66 {
        b - 0x61 + 10
    } else {
        b - 0x41 + 10
    }
}

/// The byte that two hexadecimal digits spell, high digit first.
pub open spec fn hex_pair(b0: u8, b1: u8) -> Option<u8> {
    if is_hex_byte(b0) && is_hex_byte(b1) {
        Some((16 * hex_value(b0) + hex_value(b1)) as u8)
    } else {
        None
    }
}

/// The colour that the UTF-8 bytes `b` of a `#RRGGBB` string spell.
pub open spec fn rgb_of_bytes(b: Seq<u8>) -> Option<(u8, u8, u8)> {
    if b.len() != 7 || b[0] != 0x23 {
        None
    } else {
        match (hex_pair(b[1], b[2]), hex_pair(b[3], b[4]), hex_pair(b[5], b[6])) {
            (Some(r), Some(g), Some(bl)) => Some((r, g, bl)),
            _ => None,
        }
    }
}

fn is_hex_byte_exec(b: u8) -> (r: bool)
    ensures
        r == is_hex_byte(b),
{
    (0x30 <= b && b <= 0x39) || (0x61 <= b && b <= 0x66) || (0x41 <= b && b <= 0x46)
}

fn hex_value_exec(b: u8) -> (r: u8)
    requires
        is_hex_byte(b),
    ensures
        r == hex_value(b),
        r < 16,
{
    if 0x30 <= b && b <= 0x39 {
        b - 0x30
    } else if 0x61 <= b && b <= 0x66 {
        b - 0x61 + 10
    } else {
        b - 0x41 + 10
    }
}

fn hex_pair_exec(b0: u8, b1: u8) -> (r: Option<u8>)
    ensures
        r == hex_pair(b0, b1),
{
    if is_hex_byte_exec(b0) && is_hex_byte_exec(b1) {
        Some(16 * hex_value_exec(b0) + hex_value_exec(b1))
    } else {
        None
    }
}

impl Project {
    /// The project's colour as red, green and blue, when it is set as a hex
    /// colour `#RRGGBB` (six hexadecimal digits, either case).
    pub fn rgb(&self) -> (r: Option<(u8, u8, u8)>)
        ensures
            r == match self.color {
                Some(c) => rgb_of_bytes(encode_utf8(c@)),
                None => None,
            },
    {
        match &self.color {
            None => None,
            Some(c) => {
                let b = c.as_str().as_bytes();
                if b.len() != 7 || b[0] != 0x23 {
                    return None;
                }
                let r = match hex_pair_exec(b[1], b[2]) {
                    Some(x) => x,
                    None => return None,
                };
                let g = match hex_pair_exec(b[3], b[4]) {
                    Some(x) => x,
                    None => return None,
                };
                let bl = match hex_pair_exec(b[5], b[6]) {
                    Some(x) => x,
                    None => return None,
                };
                Some((r, g, bl))
            },
        }
    }
}


/// The byte of the uppercase hexadecimal digit for `v < 16`.
pub open spec fn hex_digit_byte(v: int) -> u8 {
    if v < 10 { (0x30 + v) as u8 } else { (0x41 + v - 10) as u8 }
}

/// The bytes of `#RRGGBB` in uppercase hexadecimal, as Clockify stores colours.
pub open spec fn hex_color_bytes(r: u8, g: u8, b: u8) -> Seq<u8> {
    seq![
        0x23u8,
        hex_digit_byte(r as int / 16),
        hex_digit_byte(r as int % 16),
        hex_digit_byte(g as int / 16),
        hex_digit_byte(g as int % 16),
        hex_digit_byte(b as int / 16),
        hex_digit_byte(b as int % 16),
    ]
}

proof fn lemma_hex_pair_of_digits(v: u8)
    ensures
        hex_pair(hex_digit_byte(v as int / 16), hex_digit_byte(v as int % 16)) == Some(v),
{
    assert(16 * (v / 16) + v % 16 == v) by (nonlinear_arith);
}

/// Any colour written as `#RRGGBB` reads back as the same red, green and blue.
pub proof fn lemma_rgb_round_trip(r: u8, g: u8, b: u8)
    ensures
        rgb_of_bytes(hex_color_bytes(r, g, b)) == Some((r, g, b)),
{
    lemma_hex_pair_of_digits(r);
    lemma_hex_pair_of_digits(g);
    lemma_hex_pair_of_digits(b);
}

} // verus!
