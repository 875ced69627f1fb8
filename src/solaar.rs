//! Reading a battery percentage out of the text that `solaar show` prints.
//!
//! The text lists devices: each starts with an un-indented header line and goes on
//! with indented attribute lines. The scan keeps, for the device being read, whether
//! its identity matched the target and the percentage captured so far; the first
//! device that is both matched and has a percentage when the next header arrives wins.
use vstd::prelude::*;
use crate::text::{
    chars_of, eq_ignore_case, eq_ignore_case_exec, find, find_exec, is_space_char,
    lines_of, parse_u8_dec, parse_unsigned, split_lines, starts_with, starts_with_exec, trim,
    trim_chars, views, words, words_from, flush,
};
use vstd::slice::slice_subrange;

verus! {

pub open spec fn identity_marker() -> Seq<char> {
    "USB id"@
}

pub open spec fn battery_marker() -> Seq<char> {
    "Battery:"@
}

pub open spec fn version_banner() -> Seq<char> {
    "solaar version"@
}

pub open spec fn receiver_banner() -> Seq<char> {
    "Приёмник"@
}

pub open spec fn device_path_marker() -> Seq<char> {
    "Device path"@
}

pub open spec fn colon() -> Seq<char> {
    ":"@
}

/// A line that opens a new device: not indented, not blank, and not one of the
/// preamble lines (version banner, receiver banner, device path).
pub open spec fn is_header(line: Seq<char>) -> bool {
    &&& !(line.len() > 0 && (line[0] == ' ' || line[0] == '\t'))
    &&& !starts_with(line, version_banner())
    &&& !starts_with(line, receiver_banner())
    &&& find(line, device_path_marker()) is None
    &&& trim(line).len() > 0
}

/// The `vendor:product` pair of an identity line (`USB id : 046d:B369`), each part trimmed.
pub open spec fn identity_of(line: Seq<char>) -> Option<(Seq<char>, Seq<char>)> {
    let t = trim(line);
    if find(t, identity_marker()) is None {
        None
    } else {
        match find(t, colon()) {
            None => None,
            Some(c) => {
                let after = trim(t.subrange(c + 1, t.len() as int));
                match find(after, colon()) {
                    None => None,
                    Some(d) => Some(
                        (
                            trim(after.subrange(0, d)),
                            trim(after.subrange(d + 1, after.len() as int)),
                        ),
                    ),
                }
            },
        }
    }
}

/// The line names the target identity, compared without regard to ASCII case.
pub open spec fn id_matches(line: Seq<char>, vendor: Seq<char>, product: Seq<char>) -> bool {
    match identity_of(line) {
        Some(pair) => eq_ignore_case(pair.0, vendor) && eq_ignore_case(pair.1, product),
        None => false,
    }
}

/// `s` without all of its trailing `%`.
pub open spec fn strip_percent(s: Seq<char>) -> Seq<char>
    decreases s.len(),
{
    if s.len() > 0 && s.last() == '%' {
        strip_percent(s.drop_last())
    } else {
        s
    }
}

/// `s` without all of its trailing `%,` pairs.
pub open spec fn strip_percent_comma(s: Seq<char>) -> Seq<char>
    decreases s.len(),
{
    if s.len() >= 2 && s[s.len() - 2] == '%' && s.last() == ',' {
        strip_percent_comma(s.subrange(0, s.len() - 2))
    } else {
        s
    }
}

pub open spec fn is_percent_word(w: Seq<char>) -> bool {
    (w.len() > 0 && w.last() == '%') || (w.len() >= 2 && w[w.len() - 2] == '%' && w.last()
        == ',')
}

/// The percentage that a word such as `95%` or `95%,` gives, if it is one in [0, 100].
pub open spec fn percent_value(w: Seq<char>) -> Option<u8> {
    let n = parse_unsigned(strip_percent_comma(strip_percent(w)), 10, 255);
    if is_percent_word(w) && n is Some && n->0 <= 100 {
        Some(n->0 as u8)
    } else {
        None
    }
}

/// The first word of `ws` that is a valid percentage.
pub open spec fn first_percent(ws: Seq<Seq<char>>) -> Option<u8>
    decreases ws.len(),
{
    if ws.len() == 0 {
        None
    } else if percent_value(ws[0]) is Some {
        percent_value(ws[0])
    } else {
        first_percent(ws.drop_first())
    }
}

/// The percentage on a battery line (`Battery: 95%, 0.`): the first valid percentage
/// among the words after the battery label.
pub open spec fn battery_value(line: Seq<char>) -> Option<u8> {
    let t = trim(line);
    match find(t, battery_marker()) {
        None => None,
        Some(k) => first_percent(words(t.subrange(k + battery_marker().len(), t.len() as int))),
    }
}

/// Why no percentage came out of the text.
#[derive(PartialEq, Eq, Structural, Debug, Clone, Copy)]
pub enum ScanError {
    /// No device of the text carried the target identity.
    DeviceNotFound,
    /// A device matched, but no valid percentage was found for it.
    NoBatteryInfo,
}

/// What the scan knows after some lines.
#[derive(Clone, Copy)]
pub struct ScanState {
    /// A device header has been seen.
    pub in_device: bool,
    /// The current device carries the target identity.
    pub matched: bool,
    /// Some device so far carried the target identity.
    pub ever_matched: bool,
    /// The percentage captured for the current device.
    pub percentage: Option<u8>,
}

pub open spec fn start_state() -> ScanState {
    ScanState { in_device: false, matched: false, ever_matched: false, percentage: None }
}

pub open spec fn next_state(st: ScanState, line: Seq<char>, vendor: Seq<char>, product: Seq<char>) -> ScanState {
    if is_header(line) {
        ScanState {
            in_device: true,
            matched: false,
            ever_matched: st.ever_matched,
            percentage: None,
        }
    } else {
        let m = st.matched || (st.in_device && id_matches(line, vendor, product));
        let pct = if m && battery_value(line) is Some {
            battery_value(line)
        } else {
            st.percentage
        };
        ScanState { in_device: st.in_device, matched: m, ever_matched: st.ever_matched || m, percentage: pct }
    }
}

/// The current device is matched and has a percentage.
pub open spec fn completed(st: ScanState) -> bool {
    st.matched && st.percentage is Some
}

pub open spec fn outcome_at_end(st: ScanState) -> Result<u8, ScanError> {
    if completed(st) {
        Ok(st.percentage->0)
    } else if st.ever_matched {
        Err(ScanError::NoBatteryInfo)
    } else {
        Err(ScanError::DeviceNotFound)
    }
}

/// The result of scanning `lines` from line `i` on, in state `st`.
pub open spec fn scan_from(
    lines: Seq<Seq<char>>,
    i: int,
    st: ScanState,
    vendor: Seq<char>,
    product: Seq<char>,
) -> Result<u8, ScanError>
    decreases lines.len() - i,
{
    if i >= lines.len() {
        outcome_at_end(st)
    } else if is_header(lines[i]) && completed(st) {
        Ok(st.percentage->0)
    } else {
        scan_from(lines, i + 1, next_state(st, lines[i], vendor, product), vendor, product)
    }
}

/// The battery percentage that the text gives for the device `vendor:product`.
pub open spec fn battery_in_text(text: Seq<char>, vendor: Seq<char>, product: Seq<char>) -> Result<u8, ScanError> {
    scan_from(lines_of(text), 0, start_state(), vendor, product)
}

fn is_header_exec(line: &[char]) -> (r: bool)
    ensures
        r == is_header(line@),
{
    if line.len() > 0 && (line[0] == ' ' || line[0] == '\t') {
        return false;
    }
    let version = chars_of("solaar version");
    let receiver = chars_of("Приёмник");
    let device_path = chars_of("Device path");
    if starts_with_exec(line, version.as_slice()) || starts_with_exec(line, receiver.as_slice()) {
        return false;
    }
    if find_exec(line, device_path.as_slice()).is_some() {
        return false;
    }
    trim_chars(line).len() > 0
}

fn id_matches_exec(line: &[char], vendor: &[char], product: &[char]) -> (r: bool)
    ensures
        r == id_matches(line@, vendor@, product@),
{
    let t = trim_chars(line);
    let marker = chars_of("USB id");
    let sep = chars_of(":");
    proof {
        reveal_strlit(":");
    }
    if find_exec(t, marker.as_slice()).is_none() {
        return false;
    }
    match find_exec(t, sep.as_slice()) {
        None => false,
        Some(c) => {
            let tl = t.len();
            let after = trim_chars(slice_subrange(t, c + 1, tl));
            match find_exec(after, sep.as_slice()) {
                None => false,
                Some(d) => {
                    let al = after.len();
                    let a = trim_chars(slice_subrange(after, 0, d));
                    let b = trim_chars(slice_subrange(after, d + 1, al));
                    eq_ignore_case_exec(a, vendor) && eq_ignore_case_exec(b, product)
                },
            }
        },
    }
}

fn percent_value_exec(w: &[char]) -> (r: Option<u8>)
    ensures
        r == percent_value(w@),
{
    let n = w.len();
    let is_word = (n > 0 && w[n - 1] == '%') || (n >= 2 && w[n - 2] == '%' && w[n - 1] == ',');
    let mut e: usize = n;
    assert(w@.subrange(0, n as int) =~= w@);
    while e > 0 && w[e - 1] == '%'
        invariant
            e <= n == w@.len(),
            strip_percent(w@) == strip_percent(w@.subrange(0, e as int)),
        decreases e,
    {
        assert(w@.subrange(0, e as int).drop_last() =~= w@.subrange(0, e - 1));
        e = e - 1;
    }
    assert(strip_percent(w@.subrange(0, e as int)) == w@.subrange(0, e as int));
    while e >= 2 && w[e - 2] == '%' && w[e - 1] == ','
        invariant
            e <= n == w@.len(),
            strip_percent_comma(strip_percent(w@)) == strip_percent_comma(w@.subrange(0, e as int)),
        decreases e,
    {
        assert(w@.subrange(0, e as int).subrange(0, e - 2) =~= w@.subrange(0, e - 2));
        e = e - 2;
    }
    let digits = slice_subrange(w, 0, e);
    if !is_word {
        return None;
    }
    match parse_u8_dec(digits) {
        Some(v) => {
            if v <= 100 {
                Some(v)
            } else {
                None
            }
        },
        None => None,
    }
}

proof fn lemma_first_percent_flush(cur: Seq<char>, rest: Seq<Seq<char>>)
    ensures
        first_percent(flush(cur) + rest) == if cur.len() > 0 && percent_value(cur) is Some {
            percent_value(cur)
        } else {
            first_percent(rest)
        },
{
    if cur.len() > 0 {
        assert((flush(cur) + rest)[0] == cur);
        assert((flush(cur) + rest).drop_first() =~= rest);
    } else {
        assert(flush(cur) + rest =~= rest);
    }
}

/// The first valid percentage among the words of `s`.
fn first_percent_exec(s: &[char]) -> (r: Option<u8>)
    ensures
        r == first_percent(words(s@)),
{
    let n = s.len();
    let mut cur: Vec<char> = Vec::new();
    let mut i: usize = 0;
    assert(s@.subrange(0, n as int) =~= s@);
    while i < n
        invariant
            n == s@.len(),
            i <= n,
            first_percent(words(s@)) == first_percent(words_from(s@.subrange(i as int, n as int), cur@)),
        decreases n - i,
    {
        let ghost rest = s@.subrange(i as int, n as int);
        assert(rest.drop_first() =~= s@.subrange(i + 1, n as int));
        if is_space_char(s[i]) {
            proof {
                lemma_first_percent_flush(cur@, words_from(s@.subrange(i + 1, n as int), seq![]));
            }
            if cur.len() > 0 {
                let v = percent_value_exec(cur.as_slice());
                if v.is_some() {
                    return v;
                }
            }
            cur = Vec::new();
            assert(cur@ =~= Seq::<char>::empty());
        } else {
            cur.push(s[i]);
        }
        i = i + 1;
    }
    proof {
        lemma_first_percent_flush(cur@, seq![]);
        assert(flush(cur@) + Seq::<Seq<char>>::empty() =~= flush(cur@));
        assert(first_percent(Seq::<Seq<char>>::empty()) is None);
    }
    if cur.len() > 0 {
        percent_value_exec(cur.as_slice())
    } else {
        None
    }
}

fn battery_value_exec(line: &[char]) -> (r: Option<u8>)
    ensures
        r == battery_value(line@),
{
    let t = trim_chars(line);
    let marker = chars_of("Battery:");
    let m = marker.as_slice();
    match find_exec(t, m) {
        None => None,
        Some(k) => {
            let tl = t.len();
            first_percent_exec(slice_subrange(t, k + m.len(), tl))
        },
    }
}

fn next_state_exec(st: ScanState, line: &[char], vendor: &[char], product: &[char]) -> (r: ScanState)
    ensures
        r == next_state(st, line@, vendor@, product@),
{
    if is_header_exec(line) {
        ScanState { in_device: true, matched: false, ever_matched: st.ever_matched, percentage: None }
    } else {
        let m = st.matched || (st.in_device && id_matches_exec(line, vendor, product));
        let mut pct = st.percentage;
        if m {
            let b = battery_value_exec(line);
            if b.is_some() {
                pct = b;
            }
        }
        ScanState { in_device: st.in_device, matched: m, ever_matched: st.ever_matched || m, percentage: pct }
    }
}

/// Scans diagnostic text for the battery percentage of the device `vendor_id:product_id`.
pub fn battery_from_diagnostic_text(output: &str, vendor_id: &str, product_id: &str) -> (r: Result<u8, ScanError>)
    ensures
        r == battery_in_text(output@, vendor_id@, product_id@),
{
    let text = chars_of(output);
    let vendor = chars_of(vendor_id);
    let product = chars_of(product_id);
    let lines = split_lines(text.as_slice());
    let ghost all = lines_of(output@);
    let mut st = ScanState { in_device: false, matched: false, ever_matched: false, percentage: None };
    let mut i: usize = 0;
    while i < lines.len()
        invariant
            views(lines@) == all,
            i <= lines@.len(),
            battery_in_text(output@, vendor_id@, product_id@) == scan_from(all, i as int, st, vendor_id@, product_id@),
            vendor@ == vendor_id@,
            product@ == product_id@,
        decreases lines.len() - i,
    {
        let line = lines[i].as_slice();
        assert(line@ == all[i as int]);
        if st.matched && st.percentage.is_some() && is_header_exec(line) {
            return Ok(st.percentage.unwrap());
        }
        st = next_state_exec(st, line, vendor.as_slice(), product.as_slice());
        i = i + 1;
    }
    if st.matched && st.percentage.is_some() {
        Ok(st.percentage.unwrap())
    } else if st.ever_matched {
        Err(ScanError::NoBatteryInfo)
    } else {
        Err(ScanError::DeviceNotFound)
    }
}

pub open spec fn no_battery_message() -> Seq<char> {
    "Device found but no battery information available"@
}

pub open spec fn not_found_message(vendor: Seq<char>, product: Seq<char>) -> Seq<char> {
    "Device with vendor ID "@ + vendor + " and product ID "@ + product + " not found"@
}

pub open spec fn tool_failed_message() -> Seq<char> {
    "Solaar command failed"@
}

/// The message reported for a scan error.
pub open spec fn error_message(e: ScanError, vendor: Seq<char>, product: Seq<char>) -> Seq<char> {
    match e {
        ScanError::NoBatteryInfo => no_battery_message(),
        ScanError::DeviceNotFound => not_found_message(vendor, product),
    }
}

/// `r` reports the scan result `s`, an error by its message.
pub open spec fn reports(r: Result<u8, String>, s: Result<u8, ScanError>, vendor: Seq<char>, product: Seq<char>) -> bool {
    match s {
        Ok(x) => r == Ok::<u8, String>(x),
        Err(e) => r is Err && r->Err_0@ == error_message(e, vendor, product),
    }
}

impl ScanError {
    /// The message for this error, naming the device that was looked for.
    pub fn message(&self, vendor_id: &str, product_id: &str) -> (r: String)
        ensures
            r@ == error_message(*self, vendor_id@, product_id@),
    {
        match self {
            ScanError::NoBatteryInfo => String::from_str(
                "Device found but no battery information available",
            ),
            ScanError::DeviceNotFound => {
                let mut m = String::from_str("Device with vendor ID ");
                m.append(vendor_id);
                m.append(" and product ID ");
                m.append(product_id);
                m.append(" not found");
                m
            },
        }
    }
}

/// Reads the battery percentage of the device `vendor_id:product_id` from the text that
/// `solaar show` printed; an error comes as its message.
pub fn parse_battery_from_solaar_output(output: &str, vendor_id: &str, product_id: &str) -> (r: Result<u8, String>)
    ensures
        reports(r, battery_in_text(output@, vendor_id@, product_id@), vendor_id@, product_id@),
{
    match battery_from_diagnostic_text(output, vendor_id, product_id) {
        Ok(x) => Ok(x),
        Err(e) => Err(e.message(vendor_id, product_id)),
    }
}

/// The battery percentage of the device `vendor_id:product_id`, given how a run of
/// `solaar show` ended and what it printed: a run that failed is an error.
pub fn get_battery_by_vendor_product_id(
    run_succeeded: bool,
    output: &str,
    vendor_id: &str,
    product_id: &str,
) -> (r: Result<u8, String>)
    ensures
        !run_succeeded ==> r is Err && r->Err_0@ == tool_failed_message(),
        run_succeeded ==> reports(r, battery_in_text(output@, vendor_id@, product_id@), vendor_id@, product_id@),
{
    if !run_succeeded {
        return Err(String::from_str("Solaar command failed"));
    }
    parse_battery_from_solaar_output(output, vendor_id, product_id)
}

pub open spec fn mx_keys_mini_vendor() -> Seq<char> {
    "046d"@
}

pub open spec fn mx_keys_mini_product() -> Seq<char> {
    "B369"@
}

/// The battery percentage of an MX Keys Mini (`046d:B369`), given how a run of
/// `solaar show` ended and what it printed.
pub fn get_mx_keys_mini_battery(run_succeeded: bool, output: &str) -> (r: Result<u8, String>)
    ensures
        !run_succeeded ==> r is Err && r->Err_0@ == tool_failed_message(),
        run_succeeded ==> reports(
            r,
            battery_in_text(output@, mx_keys_mini_vendor(), mx_keys_mini_product()),
            mx_keys_mini_vendor(),
            mx_keys_mini_product(),
        ),
{
    get_battery_by_vendor_product_id(run_succeeded, output, "046d", "B369")
}

/// The state after lines `i..k`, read one after the other.
pub open spec fn run(
    lines: Seq<Seq<char>>,
    i: int,
    k: int,
    st: ScanState,
    vendor: Seq<char>,
    product: Seq<char>,
) -> ScanState
    decreases k - i,
{
    if i >= k {
        st
    } else {
        run(lines, i + 1, k, next_state(st, lines[i], vendor, product), vendor, product)
    }
}

/// No device header stands among the first `j` lines: a line there belongs to the
/// preamble, where identities are not read.
pub open spec fn before_devices(lines: Seq<Seq<char>>, j: int) -> bool {
    forall|q: int| 0 <= q < j ==> !is_header(#[trigger] lines[q])
}

/// Lines whose target identity, if any, stands in the preamble leave an unmatched state
/// unmatched and without a percentage, so the scan cannot stop among them.
proof fn lemma_skip_unmatched(
    lines: Seq<Seq<char>>,
    i: int,
    k: int,
    st: ScanState,
    vendor: Seq<char>,
    product: Seq<char>,
)
    requires
        0 <= i <= k <= lines.len(),
        forall|j: int| i <= j < k && id_matches(#[trigger] lines[j], vendor, product) ==> before_devices(lines, j),
        st.in_device ==> !before_devices(lines, i),
        !st.matched,
        st.percentage is None,
    ensures
        scan_from(lines, i, st, vendor, product) == scan_from(
            lines,
            k,
            run(lines, i, k, st, vendor, product),
            vendor,
            product,
        ),
        !run(lines, i, k, st, vendor, product).matched,
        run(lines, i, k, st, vendor, product).percentage is None,
        run(lines, i, k, st, vendor, product).ever_matched == st.ever_matched,
        run(lines, i, k, st, vendor, product).in_device ==> !before_devices(lines, k),
    decreases k - i,
{
    if i < k {
        let next = next_state(st, lines[i], vendor, product);
        if is_header(lines[i]) {
            assert(!before_devices(lines, i + 1));
        } else if st.in_device {
            let q = choose|q: int| 0 <= q < i && is_header(#[trigger] lines[q]);
            assert(!before_devices(lines, i + 1)) by {
                assert(0 <= q < i + 1 && is_header(lines[q]));
            }
            if id_matches(lines[i], vendor, product) {
                assert(before_devices(lines, i));
            }
        }
        lemma_skip_unmatched(lines, i + 1, k, next, vendor, product);
    }
}

/// From an unmatched state, lines with no target identity end the scan in failure.
proof fn lemma_unmatched_to_end(
    lines: Seq<Seq<char>>,
    i: int,
    st: ScanState,
    vendor: Seq<char>,
    product: Seq<char>,
)
    requires
        0 <= i <= lines.len(),
        forall|j: int| i <= j < lines.len() ==> !id_matches(#[trigger] lines[j], vendor, product),
        !st.matched,
        st.percentage is None,
    ensures
        scan_from(lines, i, st, vendor, product) == if st.ever_matched {
            Err::<u8, ScanError>(ScanError::NoBatteryInfo)
        } else {
            Err::<u8, ScanError>(ScanError::DeviceNotFound)
        },
    decreases lines.len() - i,
{
    if i < lines.len() {
        assert(!id_matches(lines[i], vendor, product));
        lemma_unmatched_to_end(lines, i + 1, next_state(st, lines[i], vendor, product), vendor, product);
    }
}

/// Past device header `h`, no line is in the preamble.
proof fn lemma_after_header(lines: Seq<Seq<char>>, h: int, k: int)
    requires
        0 <= h < k <= lines.len(),
        is_header(lines[h]),
    ensures
        !before_devices(lines, k),
{
}

/// Reading the attribute lines of one device: no early stop, the device stays open,
/// a match sticks, and without battery lines the percentage stays as it was.
proof fn lemma_section(
    lines: Seq<Seq<char>>,
    i: int,
    k: int,
    st: ScanState,
    vendor: Seq<char>,
    product: Seq<char>,
    m: int,
)
    requires
        0 <= i <= k <= lines.len(),
        forall|j: int| i <= j < k ==> !is_header(#[trigger] lines[j]),
        st.matched ==> st.in_device && st.ever_matched,
    ensures
        ({
            let r = run(lines, i, k, st, vendor, product);
            &&& scan_from(lines, i, st, vendor, product) == scan_from(lines, k, r, vendor, product)
            &&& r.in_device == st.in_device
            &&& r.matched ==> r.in_device && r.ever_matched
            &&& st.matched ==> r.matched
            &&& st.ever_matched ==> r.ever_matched
            &&& (st.in_device && i <= m < k && id_matches(lines[m], vendor, product)) ==> r.matched
            &&& (forall|j: int| i <= j < k ==> (#[trigger] battery_value(lines[j])) is None)
                ==> r.percentage == st.percentage
        }),
    decreases k - i,
{
    if i < k {
        assert(!is_header(lines[i]));
        let next = next_state(st, lines[i], vendor, product);
        lemma_section(lines, i + 1, k, next, vendor, product, m);
        if forall|j: int| i <= j < k ==> (#[trigger] battery_value(lines[j])) is None {
            assert(battery_value(lines[i]) is None);
        }
    }
}

/// When exactly one device of the text carries the target identity, the text gives the
/// percentage captured for that device (the last valid one on its battery lines from the
/// identity line on), wherever the device stands among the others. Identities in the
/// preamble before the first device are not read.
pub proof fn lemma_single_matching_device(
    text: Seq<char>,
    vendor: Seq<char>,
    product: Seq<char>,
    h: int,
    e: int,
    m: int,
    j: int,
    x: u8,
)
    requires
        0 <= h < m <= j < e <= lines_of(text).len(),
        is_header(lines_of(text)[h]),
        forall|k: int| h < k < e ==> !is_header(#[trigger] lines_of(text)[k]),
        e == lines_of(text).len() || is_header(lines_of(text)[e]),
        id_matches(lines_of(text)[m], vendor, product),
        forall|k: int|
            0 <= k < lines_of(text).len() && (k <= h || k >= e) && id_matches(
                #[trigger] lines_of(text)[k],
                vendor,
                product,
            ) ==> before_devices(lines_of(text), k),
        battery_value(lines_of(text)[j]) == Some(x),
        forall|k: int| j < k < e ==> (#[trigger] battery_value(lines_of(text)[k])) is None,
    ensures
        battery_in_text(text, vendor, product) == Ok::<u8, ScanError>(x),
{
    let lines = lines_of(text);
    lemma_skip_unmatched(lines, 0, h, start_state(), vendor, product);
    let s0 = run(lines, 0, h, start_state(), vendor, product);
    let s1 = next_state(s0, lines[h], vendor, product);
    lemma_section(lines, h + 1, j, s1, vendor, product, m);
    let s2 = run(lines, h + 1, j, s1, vendor, product);
    let s3 = next_state(s2, lines[j], vendor, product);
    assert(!is_header(lines[j]));
    assert(s3.matched && s3.percentage == Some(x));
    lemma_section(lines, j + 1, e, s3, vendor, product, m);
    let s4 = run(lines, j + 1, e, s3, vendor, product);
    assert(scan_from(lines, j, s2, vendor, product) == scan_from(lines, j + 1, s3, vendor, product));
    assert(s4.matched && s4.percentage == Some(x));
}

/// A text in which the target identity stands on exactly one device line gives the
/// valid percentage of the one battery line that follows it in the same device.
/// Identities in the preamble before the first device are not read.
pub proof fn lemma_identity_once_with_percentage(
    text: Seq<char>,
    vendor: Seq<char>,
    product: Seq<char>,
    h: int,
    e: int,
    m: int,
    j: int,
    x: u8,
)
    requires
        0 <= h < m <= j < e <= lines_of(text).len(),
        is_header(lines_of(text)[h]),
        forall|k: int| h < k < e ==> !is_header(#[trigger] lines_of(text)[k]),
        e == lines_of(text).len() || is_header(lines_of(text)[e]),
        id_matches(lines_of(text)[m], vendor, product),
        forall|k: int|
            0 <= k < lines_of(text).len() && k != m && id_matches(#[trigger] lines_of(text)[k], vendor, product)
                ==> before_devices(lines_of(text), k),
        battery_value(lines_of(text)[j]) == Some(x),
        forall|k: int| m <= k < e && k != j ==> (#[trigger] battery_value(lines_of(text)[k])) is None,
    ensures
        battery_in_text(text, vendor, product) == Ok::<u8, ScanError>(x),
{
    lemma_single_matching_device(text, vendor, product, h, e, m, j, x);
}

/// A text in which no line carries the target identity gives "device not found".
pub proof fn lemma_absent_identity_not_found(text: Seq<char>, vendor: Seq<char>, product: Seq<char>)
    requires
        forall|k: int|
            0 <= k < lines_of(text).len() ==> !id_matches(#[trigger] lines_of(text)[k], vendor, product),
    ensures
        battery_in_text(text, vendor, product) == Err::<u8, ScanError>(ScanError::DeviceNotFound),
{
    lemma_unmatched_to_end(lines_of(text), 0, start_state(), vendor, product);
}

/// When the one device that carries the target identity has no valid percentage among
/// its lines, the text gives "no battery information", wherever the device stands.
/// Identities in the preamble before the first device are not read.
pub proof fn lemma_matched_without_percentage(
    text: Seq<char>,
    vendor: Seq<char>,
    product: Seq<char>,
    h: int,
    e: int,
    m: int,
)
    requires
        0 <= h < m < e <= lines_of(text).len(),
        is_header(lines_of(text)[h]),
        forall|k: int| h < k < e ==> !is_header(#[trigger] lines_of(text)[k]),
        e == lines_of(text).len() || is_header(lines_of(text)[e]),
        id_matches(lines_of(text)[m], vendor, product),
        forall|k: int|
            0 <= k < lines_of(text).len() && (k <= h || k >= e) && id_matches(
                #[trigger] lines_of(text)[k],
                vendor,
                product,
            ) ==> before_devices(lines_of(text), k),
        forall|k: int| h < k < e ==> (#[trigger] battery_value(lines_of(text)[k])) is None,
    ensures
        battery_in_text(text, vendor, product) == Err::<u8, ScanError>(ScanError::NoBatteryInfo),
{
    let lines = lines_of(text);
    lemma_skip_unmatched(lines, 0, h, start_state(), vendor, product);
    let s0 = run(lines, 0, h, start_state(), vendor, product);
    let s1 = next_state(s0, lines[h], vendor, product);
    lemma_section(lines, h + 1, e, s1, vendor, product, m);
    let s2 = run(lines, h + 1, e, s1, vendor, product);
    assert(s2.matched && s2.ever_matched && s2.percentage is None);
    if e < lines.len() {
        let s3 = next_state(s2, lines[e], vendor, product);
        assert forall|k: int| e + 1 <= k < lines.len() implies !id_matches(#[trigger] lines[k], vendor, product) by {
            lemma_after_header(lines, h, k);
        }
        lemma_unmatched_to_end(lines, e + 1, s3, vendor, product);
    }
}

/// Two line sequences that agree line by line on headers, battery values and whether
/// each line names its target identity are scanned alike.
proof fn lemma_scan_alike(
    lines_a: Seq<Seq<char>>,
    lines_b: Seq<Seq<char>>,
    i: int,
    st: ScanState,
    vendor_a: Seq<char>,
    product_a: Seq<char>,
    vendor_b: Seq<char>,
    product_b: Seq<char>,
)
    requires
        0 <= i <= lines_a.len(),
        lines_a.len() == lines_b.len(),
        forall|k: int| 0 <= k < lines_a.len() ==> is_header(#[trigger] lines_a[k]) == is_header(lines_b[k])
            && battery_value(lines_a[k]) == battery_value(lines_b[k])
            && id_matches(lines_a[k], vendor_a, product_a) == id_matches(lines_b[k], vendor_b, product_b),
    ensures
        scan_from(lines_a, i, st, vendor_a, product_a) == scan_from(lines_b, i, st, vendor_b, product_b),
    decreases lines_a.len() - i,
{
    if i < lines_a.len() {
        assert(next_state(st, lines_a[i], vendor_a, product_a) == next_state(st, lines_b[i], vendor_b, product_b));
        lemma_scan_alike(lines_a, lines_b, i + 1, next_state(st, lines_a[i], vendor_a, product_a), vendor_a, product_a, vendor_b, product_b);
    }
}

/// Identities are compared without regard to ASCII case, on both sides: two texts whose
/// lines differ at most in the case of the identity values they name (`046D:B369`
/// against `046d:b369`), scanned for target identities that differ at most in case,
/// give the same result.
pub proof fn lemma_identity_case_insensitive(
    text_a: Seq<char>,
    text_b: Seq<char>,
    vendor_a: Seq<char>,
    product_a: Seq<char>,
    vendor_b: Seq<char>,
    product_b: Seq<char>,
)
    requires
        eq_ignore_case(vendor_a, vendor_b),
        eq_ignore_case(product_a, product_b),
        lines_of(text_a).len() == lines_of(text_b).len(),
        forall|k: int| 0 <= k < lines_of(text_a).len() ==> {
            let la = #[trigger] lines_of(text_a)[k];
            let lb = lines_of(text_b)[k];
            &&& is_header(la) == is_header(lb)
            &&& battery_value(la) == battery_value(lb)
            &&& identity_of(la) is Some <==> identity_of(lb) is Some
            &&& identity_of(la) is Some ==> {
                let (va, pa) = identity_of(la)->0;
                let (vb, pb) = identity_of(lb)->0;
                eq_ignore_case(va, vb) && eq_ignore_case(pa, pb)
            }
        },
    ensures
        battery_in_text(text_a, vendor_a, product_a) == battery_in_text(text_b, vendor_b, product_b),
{
    let la = lines_of(text_a);
    let lb = lines_of(text_b);
    assert forall|k: int| 0 <= k < la.len() implies is_header(#[trigger] la[k]) == is_header(lb[k])
        && battery_value(la[k]) == battery_value(lb[k])
        && id_matches(la[k], vendor_a, product_a) == id_matches(lb[k], vendor_b, product_b) by {
        assert(la[k] == lines_of(text_a)[k]);
    }
    lemma_scan_alike(la, lb, 0, start_state(), vendor_a, product_a, vendor_b, product_b);
}

} // verus!
