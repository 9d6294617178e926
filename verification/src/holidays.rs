//! The set of holidays, and the text it is read from.

use crate::calendar::{parse_day_number, parsed_day_number, CalendarDate};
use std::collections::HashSet;
use vstd::prelude::*;
use vstd::string::*;

verus! {

broadcast use vstd::std_specs::hash::group_hash_axioms;

/// A set of dates that count as no workday, whatever their weekday.
pub struct HolidaySet {
    day_numbers: HashSet<i32>,
}

impl View for HolidaySet {
    type V = Set<int>;

    /// The day numbers of the holidays.
    closed spec fn view(&self) -> Set<int> {
        Set::new(
            |day_number: int|
                i32::MIN <= day_number <= i32::MAX && self.day_numbers@.contains(day_number as i32),
        )
    }
}

impl HolidaySet {
    /// The set without any holiday.
    pub fn new() -> (holidays: HolidaySet)
        ensures
            holidays@ == Set::<int>::empty(),
    {
        let holidays = HolidaySet { day_numbers: HashSet::new() };
        assert(holidays@ =~= Set::<int>::empty());
        holidays
    }

    /// Adds a date, and says whether it was new to the set.
    pub fn insert(&mut self, date: CalendarDate) -> (added: bool)
        ensures
            final(self)@ == old(self)@.insert(date@),
            added == !old(self)@.contains(date@),
    {
        self.insert_day_number(date.day_number())
    }

    /// Whether a date is among the holidays.
    pub fn contains(&self, date: &CalendarDate) -> (found: bool)
        ensures
            found == self@.contains(date@),
    {
        self.contains_day_number(date.day_number())
    }

    pub(crate) fn contains_day_number(&self, day_number: i32) -> (found: bool)
        ensures
            found == self@.contains(day_number as int),
    {
        self.day_numbers.contains(&day_number)
    }

    pub(crate) fn insert_day_number(&mut self, day_number: i32) -> (added: bool)
        ensures
            final(self)@ == old(self)@.insert(day_number as int),
            added == !old(self)@.contains(day_number as int),
    {
        let added = self.day_numbers.insert(day_number);
        assert(self@ =~= old(self)@.insert(day_number as int));
        added
    }
}

/// Whether the characters from `start` up to, not including, `end` are a
/// line of the text: a stretch without a line feed that begins at the
/// beginning of the text or behind a line feed, and ends at the end of the
/// text or before a line feed. A text that ends in a line feed has an empty
/// last line.
pub open spec fn is_line(text: Seq<char>, start: int, end: int) -> bool {
    &&& 0 <= start <= end <= text.len()
    &&& start == 0 || text[start - 1] == '\n'
    &&& end == text.len() || text[end] == '\n'
    &&& forall|at: int| start <= at < end ==> text[at] != '\n'
}

/// The holidays that a text names: the dates that some line of it reads as.
/// A line that reads as no date names none.
pub open spec fn holidays_in_text(text: Seq<char>) -> Set<int> {
    Set::new(
        |day_number: int|
            exists|start: int, end: int|
                is_line(text, start, end) && #[trigger] parsed_day_number(
                    text.subrange(start, end),
                ) == Some(day_number),
    )
}

/// The holidays that the contents of a holiday file name; without a file
/// there are none.
pub open spec fn holidays_in(contents: Option<Seq<char>>) -> Set<int> {
    match contents {
        Some(text) => holidays_in_text(text),
        None => Set::empty(),
    }
}

/// The holidays among the lines that end before `start`, itself the
/// beginning of a line.
spec fn holidays_before(text: Seq<char>, start: int) -> Set<int> {
    Set::new(
        |day_number: int|
            exists|from: int, to: int|
                is_line(text, from, to) && to < start && #[trigger] parsed_day_number(
                    text.subrange(from, to),
                ) == Some(day_number),
    )
}

/// A line is the only one that begins where it begins, and the only one that
/// ends where it ends.
proof fn lemma_line_is_unique(text: Seq<char>, start: int, end: int, from: int, to: int)
    requires
        is_line(text, start, end),
        is_line(text, from, to),
        start <= to,
        from <= end,
    ensures
        from == start,
        to == end,
{
    if from < start {
        assert(text[start - 1] == '\n');
    }
    if start < from {
        assert(text[from - 1] == '\n');
    }
    if to < end {
        assert(text[to] == '\n');
    }
    if end < to {
        assert(text[end] == '\n');
    }
}

/// Reading the line from `start` to `end` adds what it names to the holidays
/// of the lines before it.
proof fn lemma_holidays_after_line(text: Seq<char>, start: int, end: int, beyond: int)
    requires
        is_line(text, start, end),
        end < beyond,
        forall|from: int, to: int| is_line(text, from, to) && to < beyond ==> to <= end,
    ensures
        holidays_before(text, beyond) == match parsed_day_number(text.subrange(start, end)) {
            Some(day_number) => holidays_before(text, start).insert(day_number),
            None => holidays_before(text, start),
        },
{
    let before = holidays_before(text, start);
    let after = holidays_before(text, beyond);
    let line = text.subrange(start, end);
    assert forall|day_number: int| after.contains(day_number) implies before.contains(day_number)
        || parsed_day_number(line) == Some(day_number) by {
        let (from, to) = choose|from: int, to: int|
            is_line(text, from, to) && to < beyond && #[trigger] parsed_day_number(
                text.subrange(from, to),
            ) == Some(day_number);
        if to >= start {
            lemma_line_is_unique(text, start, end, from, to);
        }
    }
    assert forall|day_number: int| before.contains(day_number) implies after.contains(
        day_number,
    ) by {
        let (from, to) = choose|from: int, to: int|
            is_line(text, from, to) && to < start && #[trigger] parsed_day_number(
                text.subrange(from, to),
            ) == Some(day_number);
        assert(is_line(text, from, to) && to < beyond && parsed_day_number(
            text.subrange(from, to),
        ) == Some(day_number));
    }
    match parsed_day_number(line) {
        Some(day_number) => {
            assert(is_line(text, start, end) && end < beyond && parsed_day_number(
                text.subrange(start, end),
            ) == Some(day_number));
            assert(after =~= before.insert(day_number));
        },
        None => {
            assert(after =~= before);
        },
    }
}

impl HolidaySet {
    /// Reads one line, and adds the date that it reads as, if any.
    fn insert_line(&mut self, line: &str)
        ensures
            final(self)@ == match parsed_day_number(line@) {
                Some(day_number) => old(self)@.insert(day_number),
                None => old(self)@,
            },
    {
        if let Some(day_number) = parse_day_number(line) {
            self.insert_day_number(day_number);
        }
    }
}

/// Reads the holidays from a text with one date on each line. Lines are
/// parted by line feeds; a line that does not read as a date is passed over.
pub fn parse_holiday_lines(text: &str) -> (holidays: HolidaySet)
    ensures
        holidays@ == holidays_in_text(text@),
{
    let mut holidays = HolidaySet::new();
    let length = text.unicode_len();
    let mut start: usize = 0;
    let mut at: usize = 0;
    assert(holidays_before(text@, 0) =~= Set::<int>::empty());
    for c in chars: text.chars()
        invariant
            length == text@.len(),
            chars.seq() == text@,
            at == chars.index(),
            start <= at <= text@.len(),
            start == 0 || text@[start - 1] == '\n',
            forall|inner: int| start <= inner < at ==> text@[inner] != '\n',
            holidays@ == holidays_before(text@, start as int),
    {
        if c == '\n' {
            holidays.insert_line(text.substring_char(start, at));
            proof {
                assert(is_line(text@, start as int, at as int));
                assert forall|from: int, to: int|
                    is_line(text@, from, to) && to < at + 1 implies to <= at by {}
                lemma_holidays_after_line(text@, start as int, at as int, at + 1);
            }
            start = at + 1;
        }
        at = at + 1;
    }
    holidays.insert_line(text.substring_char(start, length));
    proof {
        assert(is_line(text@, start as int, length as int));
        lemma_holidays_after_line(text@, start as int, length as int, length + 1);
        assert(holidays_before(text@, length + 1) =~= holidays_in_text(text@));
    }
    holidays
}

/// The holidays of a run: those that the contents of the holiday file name,
/// or none where there is no such file or it could not be read.
pub fn parse_holidays(contents: &Option<String>) -> (holidays: HolidaySet)
    ensures
        holidays@ == holidays_in(
            match *contents {
                Some(text) => Some(text@),
                None => None,
            },
        ),
{
    match contents {
        Some(text) => parse_holiday_lines(text.as_str()),
        None => HolidaySet::new(),
    }
}

/// A text of which no line reads as a date names no holiday: it gives what
/// no holiday file gives.
pub proof fn lemma_unreadable_lines_name_no_holiday(text: Seq<char>)
    requires
        forall|start: int, end: int|
            is_line(text, start, end) ==> #[trigger] parsed_day_number(
                text.subrange(start, end),
            ) is None,
    ensures
        holidays_in(Some(text)) == holidays_in(None),
{
    assert(holidays_in_text(text) =~= Set::<int>::empty());
}

} // verus!
