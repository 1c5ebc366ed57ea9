//! Line statistics read from the router's home page.

use vstd::prelude::*;
use vstd::string::*;

verus! {

use crate::timm::html::{cell_texts, cell_texts_in, texts_of};
use crate::timm::text::{decimal, decimal_digits};

/// How the download speed compares with the upload speed.
#[derive(PartialEq, Eq, Debug, Clone, Copy, Structural)]
pub enum LineSpeed {
    Bad,
    Slow,
    Normal,
}

/// The category of a download-to-upload ratio: below one is bad, from one up
/// to (not including) two is slow, anything higher is normal.
pub open spec fn speed_for_ratio(ratio: int) -> LineSpeed {
    if ratio < 1 {
        LineSpeed::Bad
    } else if ratio < 2 {
        LineSpeed::Slow
    } else {
        LineSpeed::Normal
    }
}

/// The category of a line, from its download and upload figures; the ratio is
/// the integer quotient.
pub open spec fn speed_of(download: u32, upload: u32) -> LineSpeed
    recommends
        upload > 0,
{
    speed_for_ratio(download as int / upload as int)
}

/// The category of a download-to-upload ratio (see `speed_for_ratio`).
impl From<u32> for LineSpeed {
    fn from(value: u32) -> Self {
        if value < 1 {
            LineSpeed::Bad
        } else if value < 2 {
            LineSpeed::Slow
        } else {
            LineSpeed::Normal
        }
    }
}

impl vstd::std_specs::convert::FromSpecImpl<u32> for LineSpeed {
    open spec fn obeys_from_spec() -> bool {
        true
    }

    open spec fn from_spec(v: u32) -> LineSpeed {
        speed_for_ratio(v as int)
    }
}

/// Classifies a line by the integer ratio of its download to its upload
/// figure. An upload of zero is refused before this point, by the caller.
pub fn classify(download: u32, upload: u32) -> (r: LineSpeed)
    requires
        upload > 0,
    ensures
        r == speed_of(download, upload),
{
    LineSpeed::from(download / upload)
}

/// Every line with a non-zero upload falls in exactly one category: bad when
/// the ratio is below one, slow when it is at least one and below two, normal
/// when it is two or more.
pub proof fn lemma_speed_partition(download: u32, upload: u32)
    requires
        upload > 0,
    ensures
        (speed_of(download, upload) == LineSpeed::Bad) <==> (download / upload < 1),
        (speed_of(download, upload) == LineSpeed::Slow) <==> (1 <= download / upload < 2),
        (speed_of(download, upload) == LineSpeed::Normal) <==> (2 <= download / upload),
{
}

/// The first line of a speed report.
pub open spec fn speed_text(speed: LineSpeed) -> Seq<char> {
    match speed {
        LineSpeed::Bad => "\u{26a0}\u{fe0f} Download speed is lower than upload speed, please reboot!\n"@,
        LineSpeed::Slow => "\u{26a0}\u{fe0f} Download speed is similar to upload speed, maybe reboot!\n"@,
        LineSpeed::Normal => "Download speed seems normal.\n"@,
    }
}

impl LineSpeed {
    /// The first line of a report on a line of this category.
    pub fn text(&self) -> (r: &'static str)
        ensures
            r@ == speed_text(*self),
    {
        match self {
            LineSpeed::Bad => "\u{26a0}\u{fe0f} Download speed is lower than upload speed, please reboot!\n",
            LineSpeed::Slow => "\u{26a0}\u{fe0f} Download speed is similar to upload speed, maybe reboot!\n",
            LineSpeed::Normal => "Download speed seems normal.\n",
        }
    }

    /// The message that reports a line of this category.
    pub fn to_string(&self) -> (r: String)
        ensures
            r@ == speed_text(*self),
    {
        String::from_str(self.text())
    }
}

/// An ASCII decimal digit.
pub open spec fn is_ascii_digit(c: char) -> bool {
    '0' <= c && c <= '9'
}

/// The value of an ASCII decimal digit.
pub open spec fn digit_value(c: char) -> int {
    (c as int) - ('0' as int)
}

/// Where the first ASCII digit of `s` stands; `s.len()` when it holds none.
pub open spec fn first_digit_at(s: Seq<char>) -> nat
    decreases s.len(),
{
    if s.len() == 0 || is_ascii_digit(s[0]) {
        0
    } else {
        1 + first_digit_at(s.drop_first())
    }
}

/// How many ASCII digits `s` starts with.
pub open spec fn leading_digits(s: Seq<char>) -> nat
    decreases s.len(),
{
    if s.len() == 0 || !is_ascii_digit(s[0]) {
        0
    } else {
        1 + leading_digits(s.drop_first())
    }
}

/// The first maximal run of ASCII digits in `s` (empty when it holds none).
pub open spec fn first_digit_run(s: Seq<char>) -> Seq<char> {
    let rest = s.skip(first_digit_at(s) as int);
    rest.take(leading_digits(rest) as int)
}

/// The number that a run of decimal digits spells, most significant first.
pub open spec fn digits_value(d: Seq<char>) -> nat
    decreases d.len(),
{
    if d.len() == 0 {
        0
    } else {
        (digits_value(d.drop_last()) * 10 + digit_value(d.last())) as nat
    }
}

/// The number that the first run of digits in `s` spells, when there is such a
/// run and its value fits in a `u32`.
pub open spec fn int_in(s: Seq<char>) -> Option<u32> {
    let run = first_digit_run(s);
    if run.len() == 0 || digits_value(run) > u32::MAX {
        None
    } else {
        Some(digits_value(run) as u32)
    }
}

proof fn lemma_first_digit_at(s: Seq<char>, i: int)
    requires
        0 <= i <= s.len(),
        forall|k: int| 0 <= k < i ==> !is_ascii_digit(#[trigger] s[k]),
        i == s.len() || is_ascii_digit(s[i]),
    ensures
        first_digit_at(s) == i,
    decreases i,
{
    if i > 0 {
        assert(!is_ascii_digit(s[0]));
        lemma_first_digit_at(s.drop_first(), i - 1);
    }
}

proof fn lemma_leading_digits(s: Seq<char>, j: int)
    requires
        0 <= j <= s.len(),
        forall|k: int| 0 <= k < j ==> is_ascii_digit(#[trigger] s[k]),
        j == s.len() || !is_ascii_digit(s[j]),
    ensures
        leading_digits(s) == j,
    decreases j,
{
    if j > 0 {
        assert(is_ascii_digit(s[0]));
        lemma_leading_digits(s.drop_first(), j - 1);
    }
}

proof fn lemma_leading_digits_bound(s: Seq<char>, m: int)
    requires
        0 <= m <= s.len(),
        forall|k: int| 0 <= k < m ==> is_ascii_digit(#[trigger] s[k]),
    ensures
        m <= leading_digits(s),
        forall|k: int| 0 <= k < leading_digits(s) ==> is_ascii_digit(#[trigger] s[k]),
        leading_digits(s) <= s.len(),
    decreases s.len(),
{
    if s.len() > 0 && is_ascii_digit(s[0]) {
        let t = s.drop_first();
        lemma_leading_digits_bound(t, if m > 0 { m - 1 } else { 0 });
        assert forall|k: int| 0 <= k < leading_digits(s) implies is_ascii_digit(#[trigger] s[k]) by {
            if k > 0 {
                assert(s[k] == t[k - 1]);
            }
        }
    }
}

/// A longer run of digits spells at least as much as any of its prefixes.
proof fn lemma_digits_value_prefix(d: Seq<char>, k: int)
    requires
        0 <= k <= d.len(),
        forall|i: int| 0 <= i < d.len() ==> is_ascii_digit(#[trigger] d[i]),
    ensures
        digits_value(d.take(k)) <= digits_value(d),
    decreases d.len(),
{
    if k < d.len() {
        assert(d.drop_last().take(k) =~= d.take(k));
        lemma_digits_value_prefix(d.drop_last(), k);
    } else {
        assert(d.take(k) =~= d);
    }
}

/// Reads the first run of ASCII digits in `input` as a number, skipping
/// whatever precedes it and ignoring whatever follows it (a unit, say).
/// Gives `None` when `input` holds no digit, or when the run does not fit in
/// a `u32`.
pub fn parse_int(input: &str) -> (r: Option<u32>)
    ensures
        r == int_in(input@),
{
    let n = input.unicode_len();
    let mut i: usize = 0;
    while i < n && !('0' <= input.get_char(i) && input.get_char(i) <= '9')
        invariant
            n == input@.len(),
            i <= n,
            forall|k: int| 0 <= k < i ==> !is_ascii_digit(#[trigger] input@[k]),
        decreases n - i,
    {
        i = i + 1;
    }
    proof {
        lemma_first_digit_at(input@, i as int);
    }
    let ghost rest = input@.skip(i as int);
    let mut j: usize = i;
    let mut value: u32 = 0;
    while j < n && '0' <= input.get_char(j) && input.get_char(j) <= '9'
        invariant
            n == input@.len(),
            i <= j <= n,
            first_digit_at(input@) == i,
            rest == input@.skip(i as int),
            forall|k: int| i <= k < j ==> is_ascii_digit(#[trigger] input@[k]),
            value == digits_value(rest.take(j - i)),
        decreases n - j,
    {
        let c = input.get_char(j);
        let d = (c as u32) - ('0' as u32);
        assert(rest.take(j + 1 - i).drop_last() =~= rest.take(j - i));
        if value > (u32::MAX - d) / 10 {
            proof {
                let m = j + 1 - i;
                assert forall|k: int| 0 <= k < m implies is_ascii_digit(#[trigger] rest[k]) by {
                    assert(rest[k] == input@[i + k]);
                }
                lemma_leading_digits_bound(rest, m);
                let run = rest.take(leading_digits(rest) as int);
                assert(run.take(m) =~= rest.take(m));
                lemma_digits_value_prefix(run, m);
                assert(value * 10 + d > u32::MAX) by (nonlinear_arith)
                    requires
                        value > (u32::MAX - d) / 10,
                        d <= 9,
                ;
            }
            return None;
        }
        value = value * 10 + d;
        j = j + 1;
    }
    proof {
        assert forall|k: int| 0 <= k < j - i implies is_ascii_digit(#[trigger] rest[k]) by {
            assert(rest[k] == input@[i + k]);
        }
        lemma_leading_digits(rest, j - i);
    }
    if j == i {
        None
    } else {
        Some(value)
    }
}

/// The statistics of the line, as the router's home page shows them.
#[derive(PartialEq, Eq, Debug)]
pub struct LineStats {
    pub ip: String,
    pub upload: u32,
    pub download: u32,
    pub speed: LineSpeed,
}

impl View for LineStats {
    /// Address, download, upload and category.
    type V = (Seq<char>, u32, u32, LineSpeed);

    open spec fn view(&self) -> Self::V {
        (self.ip@, self.download, self.upload, self.speed)
    }
}

/// The statistics that the cells of the home page's table give: the first
/// cell is the address, the second the download and the third the upload
/// figure. There are none when a cell is missing, when a figure holds no
/// number, or when the upload is zero.
pub open spec fn stats_from_texts(texts: Seq<Seq<char>>) -> Option<(Seq<char>, u32, u32, LineSpeed)> {
    if texts.len() < 3 {
        None
    } else {
        match (int_in(texts[1]), int_in(texts[2])) {
            (Some(download), Some(upload)) => if upload == 0 {
                None
            } else {
                Some((texts[0], download, upload, speed_of(download, upload)))
            },
            _ => None,
        }
    }
}

/// A zero upload figure makes the whole record a parse failure, so the
/// ratio is never taken with a zero divisor.
pub proof fn lemma_zero_upload_refused(texts: Seq<Seq<char>>)
    requires
        texts.len() >= 3,
        int_in(texts[2]) == Some(0u32),
    ensures
        stats_from_texts(texts) is None,
{
}

/// Reads the statistics out of the texts of the home page's cells (see
/// `stats_from_texts`); `Err` where they do not give statistics.
impl TryFrom<Vec<String>> for LineStats {
    type Error = ();

    fn try_from(value: Vec<String>) -> Result<Self, Self::Error> {
        if value.len() < 3 {
            return Err(());
        }
        let download = parse_int(value[1].as_str());
        let upload = parse_int(value[2].as_str());
        match (download, upload) {
            (Some(download), Some(upload)) => {
                if upload < 1 {
                    Err(())
                } else {
                    Ok(LineStats { ip: value[0].clone(), download, upload, speed: classify(download, upload) })
                }
            },
            _ => Err(()),
        }
    }
}

impl vstd::std_specs::convert::TryFromSpecImpl<Vec<String>> for LineStats {
    open spec fn obeys_try_from_spec() -> bool {
        true
    }

    open spec fn try_from_spec(v: Vec<String>) -> Result<Self, ()> {
        match stats_from_texts(texts_of(v@)) {
            Some((_, download, upload, speed)) => Ok(
                LineStats { ip: v@[0], upload, download, speed },
            ),
            None => Err(()),
        }
    }
}

/// The message that reports the statistics of a line.
pub open spec fn stats_text(s: (Seq<char>, u32, u32, LineSpeed)) -> Seq<char> {
    speed_text(s.3) + "\u{1f53b} "@ + decimal_digits(s.1 as nat) + "kbps\n\u{1f53a} "@
        + decimal_digits(s.2 as nat) + "kbps"@
}

impl LineStats {
    /// The message that reports these statistics: the category, then the
    /// download and upload figures in kbps.
    pub fn to_string(&self) -> (r: String)
        ensures
            r@ == stats_text(self@),
    {
        let mut r = String::from_str(self.speed.text());
        r.append("\u{1f53b} ");
        let download = decimal(self.download);
        r.append(download.as_str());
        r.append("kbps\n\u{1f53a} ");
        let upload = decimal(self.upload);
        r.append(upload.as_str());
        r.append("kbps");
        r
    }
}

/// The cells of the home page that hold the address and the two figures.
pub open spec fn stats_selector() -> Seq<char> {
    "table.tablecontainttbl > tr > td.fcolor"@
}

/// Reads the statistics of the line out of the router's home page. `None`
/// where the page cannot be loaded or its cells do not give statistics.
pub fn stats_from_html(html: &str) -> (r: Option<LineStats>)
    ensures
        r is Some <==> (cell_texts_in(html@, stats_selector()) matches Some(texts)
            && stats_from_texts(texts) is Some),
        r matches Some(s) ==> cell_texts_in(html@, stats_selector()) matches Some(texts)
            && stats_from_texts(texts) == Some(s@),
{
    let texts = cell_texts(html, "table.tablecontainttbl > tr > td.fcolor");
    match texts {
        Some(texts) => match LineStats::try_from(texts) {
            Ok(stats) => Some(stats),
            Err(_) => None,
        },
        None => None,
    }
}

} // verus!
