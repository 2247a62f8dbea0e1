//! Decoding of ELM327 replies to Mode 01 requests and to the `ATRV`
//! battery-voltage command.
use vstd::prelude::*;
use crate::text::{is_space, trim, split_lines, lemma_split_step, trim_bounds, push_range};
use crate::hex::{
    hex_bytes_in, spaced_hex, law_spaced_hex_round_trip, split_words, words_bytes, word_bytes, lemma_words_bytes_push,
    lemma_split_words_step, push_word_bytes,
};

verus! {

/// Why a reply could not be decoded.
#[derive(Debug, PartialEq, Eq)]
pub enum ObdError {
    /// The reply held no hex byte at all; the reply text is kept.
    NoHexBytes(String),
    /// Fewer than three bytes: no room for mode, PID and data.
    ShortResponse(Vec<u8>),
    /// The first two bytes are not `41` and the PID that was asked for.
    UnexpectedHeader(Vec<u8>),
    /// An engine-speed reply with fewer than two data bytes.
    MissingRpmBytes(Vec<u8>),
}

/// The data bytes of a positive Mode 01 reply for `pid`: what follows the
/// `41` and the PID, when the reply has at least three bytes and starts so.
pub open spec fn mode01_payload(bytes: Seq<u8>, pid: u8) -> Option<Seq<u8>> {
    if bytes.len() >= 3 && bytes[0] == 0x41 && bytes[1] == pid {
        Some(bytes.subrange(2, bytes.len() as int))
    } else {
        None
    }
}

/// Engine speed in rpm: `((A * 256) + B) / 4` (PID `0C`).
pub open spec fn rpm_of(bytes: Seq<u8>) -> Option<u16> {
    match mode01_payload(bytes, 0x0C) {
        Some(p) => if p.len() >= 2 {
            Some(((p[0] * 256 + p[1]) / 4) as u16)
        } else {
            None
        },
        None => None,
    }
}

/// Vehicle speed in km/h: `A` (PID `0D`).
pub open spec fn speed_of(bytes: Seq<u8>) -> Option<u8> {
    match mode01_payload(bytes, 0x0D) {
        Some(p) => Some(p[0]),
        None => None,
    }
}

/// Coolant temperature in °C: `A - 40` (PID `05`).
pub open spec fn coolant_of(bytes: Seq<u8>) -> Option<i16> {
    match mode01_payload(bytes, 0x05) {
        Some(p) => Some((p[0] - 40) as i16),
        None => None,
    }
}

/// Throttle position in percent: `A * 100 / 255` (PID `11`).
pub open spec fn throttle_of(bytes: Seq<u8>) -> Option<u8> {
    match mode01_payload(bytes, 0x11) {
        Some(p) => Some((p[0] * 100 / 255) as u8),
        None => None,
    }
}

/// Whether the error is the one a reply of these bytes gets when its
/// header does not fit `pid`: too short, or the wrong mode or PID.
pub open spec fn header_error(e: ObdError, bytes: Seq<u8>, pid: u8) -> bool {
    if bytes.len() < 3 {
        e matches ObdError::ShortResponse(b) && b@ == bytes
    } else {
        &&& bytes[0] != 0x41 || bytes[1] != pid
        &&& e matches ObdError::UnexpectedHeader(b) && b@ == bytes
    }
}

/// Collects every hex byte of a reply. A word between white space that is
/// an even number (at least two) of hex digits stands for its bytes, pair by
/// pair (`41 0C 1A F8` and `410C1AF8` both give `[0x41, 0x0C, 0x1A, 0xF8]`);
/// other words are skipped. A reply without any such byte is an error.
pub fn extract_hex_bytes(s: &str) -> (r: Result<Vec<u8>, ObdError>)
    ensures
        r is Ok <==> hex_bytes_in(s@).len() > 0,
        r matches Ok(v) ==> v@ == hex_bytes_in(s@),
        r matches Err(e) ==> e matches ObdError::NoHexBytes(t) && t@ == s@,
{
    let mut out: Vec<u8> = Vec::new();
    let mut cur: Vec<char> = Vec::new();
    let ghost mut done: Seq<Seq<char>> = Seq::empty();
    for c in it: s.chars()
        invariant
            it.seq() == s@,
            split_words(s@.take(it.index())) == done.push(cur@),
            out@ == words_bytes(done),
    {
        let ghost i = it.index();
        assert(s@[i] == c);
        assert(s@.take(i + 1) =~= s@.take(i).push(c));
        proof {
            lemma_split_words_step(s@.take(i), c);
        }
        if crate::text::char_is_space(c) {
            push_word_bytes(&mut out, &cur);
            proof {
                lemma_words_bytes_push(done, cur@);
                done = done.push(cur@);
            }
            cur = Vec::new();
            assert(done.push(cur@) =~= split_words(s@.take(i + 1)));
        } else {
            cur.push(c);
            assert(done.push(cur@) =~= split_words(s@.take(i + 1)));
        }
    }
    assert(s@.take(s@.len() as int) =~= s@);
    push_word_bytes(&mut out, &cur);
    proof {
        lemma_words_bytes_push(done, cur@);
    }
    if out.len() == 0 {
        Err(ObdError::NoHexBytes(String::from_str(s)))
    } else {
        Ok(out)
    }
}

/// Checks that `bytes` is a positive Mode 01 reply for `pid` (`41`, then the
/// PID, then at least one data byte) and gives its data bytes.
pub fn ensure_mode01_pid(bytes: &[u8], pid: u8) -> (r: Result<&[u8], ObdError>)
    ensures
        r is Ok <==> mode01_payload(bytes@, pid) is Some,
        r matches Ok(p) ==> mode01_payload(bytes@, pid) == Some(p@),
        r matches Err(e) ==> header_error(e, bytes@, pid),
{
    if bytes.len() < 3 {
        return Err(ObdError::ShortResponse(vstd::slice::slice_to_vec(bytes)));
    }
    if bytes[0] != 0x41 || bytes[1] != pid {
        return Err(ObdError::UnexpectedHeader(vstd::slice::slice_to_vec(bytes)));
    }
    Ok(&bytes[2..bytes.len()])
}

/// Engine speed from a PID `0C` reply.
pub fn parse_rpm(bytes: &[u8]) -> (r: Result<u16, ObdError>)
    ensures
        r is Ok <==> rpm_of(bytes@) is Some,
        r matches Ok(v) ==> rpm_of(bytes@) == Some(v),
        r matches Err(e) ==> {
            ||| header_error(e, bytes@, 0x0C)
            ||| mode01_payload(bytes@, 0x0C) is Some && (e matches ObdError::MissingRpmBytes(b)
                && b@ == bytes@)
        },
{
    let p = ensure_mode01_pid(bytes, 0x0C)?;
    if p.len() < 2 {
        return Err(ObdError::MissingRpmBytes(vstd::slice::slice_to_vec(bytes)));
    }
    let a: u16 = p[0] as u16;
    let b: u16 = p[1] as u16;
    Ok(((a * 256) + b) / 4)
}

/// Vehicle speed from a PID `0D` reply.
pub fn parse_speed(bytes: &[u8]) -> (r: Result<u8, ObdError>)
    ensures
        r is Ok <==> speed_of(bytes@) is Some,
        r matches Ok(v) ==> speed_of(bytes@) == Some(v),
        r matches Err(e) ==> header_error(e, bytes@, 0x0D),
{
    let p = ensure_mode01_pid(bytes, 0x0D)?;
    Ok(p[0])
}

/// Coolant temperature from a PID `05` reply.
pub fn parse_temp_coolant(bytes: &[u8]) -> (r: Result<i16, ObdError>)
    ensures
        r is Ok <==> coolant_of(bytes@) is Some,
        r matches Ok(v) ==> coolant_of(bytes@) == Some(v),
        r matches Err(e) ==> header_error(e, bytes@, 0x05),
{
    let p = ensure_mode01_pid(bytes, 0x05)?;
    Ok((p[0] as i16) - 40)
}

/// Throttle position from a PID `11` reply.
pub fn parse_throttle(bytes: &[u8]) -> (r: Result<u8, ObdError>)
    ensures
        r is Ok <==> throttle_of(bytes@) is Some,
        r matches Ok(v) ==> throttle_of(bytes@) == Some(v),
        r matches Err(e) ==> header_error(e, bytes@, 0x11),
{
    let p = ensure_mode01_pid(bytes, 0x11)?;
    Ok((((p[0] as u16) * 100) / 255) as u8)
}

/// A line that mentions volts: it holds a `v` or a `V`.
pub open spec fn mentions_volts(l: Seq<char>) -> bool {
    exists|i: int| 0 <= i < l.len() && (l[i] == 'v' || l[i] == 'V')
}

/// The first of the lines, trimmed, that mentions volts.
pub open spec fn first_volt_line(ls: Seq<Seq<char>>) -> Option<Seq<char>>
    decreases ls.len(),
{
    if ls.len() == 0 {
        None
    } else {
        match first_volt_line(ls.drop_last()) {
            Some(l) => Some(l),
            None => if mentions_volts(trim(ls.last())) {
                Some(trim(ls.last()))
            } else {
                None
            },
        }
    }
}

/// `s` without its trailing `V` and `v` characters.
pub open spec fn strip_volt_suffix(s: Seq<char>) -> Seq<char>
    decreases s.len(),
{
    if s.len() > 0 && (s.last() == 'V' || s.last() == 'v') {
        strip_volt_suffix(s.drop_last())
    } else {
        s
    }
}

/// The number text of an `ATRV` reply such as `12.4V`: the first line that
/// mentions volts (or, when none does, the whole reply), trimmed, without its
/// trailing `V`/`v` characters.
pub open spec fn voltage_field(s: Seq<char>) -> Seq<char> {
    let chosen = match first_volt_line(split_lines(s)) {
        Some(l) => l,
        None => trim(s),
    };
    strip_volt_suffix(trim(chosen))
}

proof fn lemma_first_volt_push(ls: Seq<Seq<char>>, l: Seq<char>)
    ensures
        first_volt_line(ls.push(l)) == match first_volt_line(ls) {
            Some(f) => Some(f),
            None => if mentions_volts(trim(l)) {
                Some(trim(l))
            } else {
                None
            },
        },
{
    assert(ls.push(l).drop_last() =~= ls);
}

proof fn lemma_strip_volt_at(s: Seq<char>, e: int)
    requires
        0 <= e <= s.len(),
        forall|i: int| e <= i < s.len() ==> (#[trigger] s[i] == 'V' || s[i] == 'v'),
        e == 0 || !(s[e - 1] == 'V' || s[e - 1] == 'v'),
    ensures
        strip_volt_suffix(s) == s.subrange(0, e),
    decreases s.len() - e,
{
    if e == s.len() {
        assert(s.subrange(0, e) =~= s);
    } else {
        let t = s.drop_last();
        assert forall|i: int| e <= i < t.len() implies (#[trigger] t[i] == 'V' || t[i] == 'v') by {
            assert(t[i] == s[i]);
        }
        if e > 0 {
            assert(t[e - 1] == s[e - 1]);
        }
        lemma_strip_volt_at(t, e);
        assert(t.subrange(0, e) =~= s.subrange(0, e));
    }
}

/// `v` trimmed, as a new vector.
fn trimmed(v: &Vec<char>) -> (r: Vec<char>)
    ensures
        r@ == trim(v@),
{
    let (a, b) = trim_bounds(v);
    let mut r: Vec<char> = Vec::new();
    let mut i: usize = a;
    while i < b
        invariant
            a <= i <= b <= v.len(),
            r@ == v@.subrange(a as int, i as int),
        decreases b - i,
    {
        r.push(v[i]);
        assert(v@.subrange(a as int, i + 1) =~= v@.subrange(a as int, i as int).push(v@[i as int]));
        i = i + 1;
    }
    r
}

/// Whether `v` mentions volts.
fn has_volt_char(v: &Vec<char>) -> (r: bool)
    ensures
        r == mentions_volts(v@),
{
    let mut i: usize = 0;
    while i < v.len()
        invariant
            i <= v.len(),
            forall|j: int| 0 <= j < i ==> !(#[trigger] v@[j] == 'v' || v@[j] == 'V'),
        decreases v.len() - i,
    {
        if v[i] == 'v' || v[i] == 'V' {
            return true;
        }
        i = i + 1;
    }
    false
}

/// Records the line `cur`, trimmed, when it is the first that mentions volts.
fn note_volt_line(found: &mut Option<Vec<char>>, cur: &Vec<char>, Ghost(done): Ghost<Seq<Seq<char>>>)
    requires
        *old(found) matches Some(f) ==> first_volt_line(done) == Some(f@),
        *old(found) is None ==> first_volt_line(done) is None,
    ensures
        *final(found) matches Some(f) ==> first_volt_line(done.push(cur@)) == Some(f@),
        *final(found) is None ==> first_volt_line(done.push(cur@)) is None,
{
    proof {
        lemma_first_volt_push(done, cur@);
    }
    if found.is_none() {
        let t = trimmed(cur);
        if has_volt_char(&t) {
            *found = Some(t);
        }
    }
}

/// The number text of an `ATRV` battery-voltage reply (see
/// [`voltage_field`]); reading it as a number is left to the caller.
pub fn voltage_text(s: &str) -> (r: String)
    ensures
        r@ == voltage_field(s@),
{
    let mut all: Vec<char> = Vec::new();
    let mut cur: Vec<char> = Vec::new();
    let mut found: Option<Vec<char>> = None;
    let ghost mut done: Seq<Seq<char>> = Seq::empty();
    for c in it: s.chars()
        invariant
            it.seq() == s@,
            all@ == s@.take(it.index()),
            split_lines(s@.take(it.index())) == done.push(cur@),
            found matches Some(f) ==> first_volt_line(done) == Some(f@),
            found is None ==> first_volt_line(done) is None,
    {
        let ghost i = it.index();
        assert(s@[i] == c);
        assert(s@.take(i + 1) =~= s@.take(i).push(c));
        proof {
            lemma_split_step(s@.take(i), c);
        }
        all.push(c);
        if c == '\n' {
            note_volt_line(&mut found, &cur, Ghost(done));
            proof {
                done = done.push(cur@);
            }
            cur = Vec::new();
            assert(done.push(cur@) =~= split_lines(s@.take(i + 1)));
        } else {
            cur.push(c);
            assert(done.push(cur@) =~= split_lines(s@.take(i + 1)));
        }
    }
    assert(s@.take(s@.len() as int) =~= s@);
    note_volt_line(&mut found, &cur, Ghost(done));
    let chosen = match found {
        Some(f) => f,
        None => trimmed(&all),
    };
    let t = trimmed(&chosen);
    let mut e: usize = t.len();
    while e > 0 && (t[e - 1] == 'V' || t[e - 1] == 'v')
        invariant
            e <= t.len(),
            forall|i: int| e <= i < t.len() ==> (#[trigger] t@[i] == 'V' || t@[i] == 'v'),
        decreases e,
    {
        e = e - 1;
    }
    proof {
        lemma_strip_volt_at(t@, e as int);
    }
    let mut out = String::new();
    push_range(&mut out, &t, 0, e);
    assert(Seq::<char>::empty() + t@.subrange(0, e as int) =~= t@.subrange(0, e as int));
    out
}

/// The Mode 01 PIDs a snapshot asks for.
#[derive(Debug, Clone, Copy, PartialEq, Eq)]
pub enum Pid {
    EngineRpm,
    VehicleSpeed,
    CoolantTemp,
    ThrottlePosition,
}

/// A decoded value, or the battery voltage carried as the bit pattern of
/// an `f32`.
#[derive(Debug, Clone, Copy, PartialEq, Eq)]
pub enum Reading {
    Rpm(u16),
    SpeedKph(u8),
    CoolantC(i16),
    ThrottlePct(u8),
    BatteryBits(u32),
}

/// The PID number.
pub open spec fn pid_number(p: Pid) -> u8 {
    match p {
        Pid::EngineRpm => 0x0C,
        Pid::VehicleSpeed => 0x0D,
        Pid::CoolantTemp => 0x05,
        Pid::ThrottlePosition => 0x11,
    }
}

/// The reading that the reply bytes give for `p`, if any.
pub open spec fn reading_of(p: Pid, bytes: Seq<u8>) -> Option<Reading> {
    match p {
        Pid::EngineRpm => match rpm_of(bytes) {
            Some(v) => Some(Reading::Rpm(v)),
            None => None,
        },
        Pid::VehicleSpeed => match speed_of(bytes) {
            Some(v) => Some(Reading::SpeedKph(v)),
            None => None,
        },
        Pid::CoolantTemp => match coolant_of(bytes) {
            Some(v) => Some(Reading::CoolantC(v)),
            None => None,
        },
        Pid::ThrottlePosition => match throttle_of(bytes) {
            Some(v) => Some(Reading::ThrottlePct(v)),
            None => None,
        },
    }
}

/// The request text for a PID: mode `01` and the PID in hex.
pub open spec fn pid_request(p: Pid) -> Seq<char> {
    match p {
        Pid::EngineRpm => seq!['0', '1', '0', 'C'],
        Pid::VehicleSpeed => seq!['0', '1', '0', 'D'],
        Pid::CoolantTemp => seq!['0', '1', '0', '5'],
        Pid::ThrottlePosition => seq!['0', '1', '1', '1'],
    }
}

impl Pid {
    /// The request to send for this PID (`010C`, `010D`, `0105`, `0111`).
    pub fn request(&self) -> (r: String)
        ensures
            r@ == pid_request(*self),
    {
        let mut r = String::new();
        crate::text::push_char(&mut r, '0');
        crate::text::push_char(&mut r, '1');
        match self {
            Pid::EngineRpm => {
                crate::text::push_char(&mut r, '0');
                crate::text::push_char(&mut r, 'C');
            },
            Pid::VehicleSpeed => {
                crate::text::push_char(&mut r, '0');
                crate::text::push_char(&mut r, 'D');
            },
            Pid::CoolantTemp => {
                crate::text::push_char(&mut r, '0');
                crate::text::push_char(&mut r, '5');
            },
            Pid::ThrottlePosition => {
                crate::text::push_char(&mut r, '1');
                crate::text::push_char(&mut r, '1');
            },
        }
        assert(r@ =~= pid_request(*self));
        r
    }
}

/// Whether `e` is the error the reply bytes get for `p`: a header that
/// does not fit, or too few engine-speed bytes.
pub open spec fn pid_error(p: Pid, bytes: Seq<u8>, e: ObdError) -> bool {
    ||| header_error(e, bytes, pid_number(p))
    ||| p == Pid::EngineRpm && mode01_payload(bytes, 0x0C) is Some && (
    e matches ObdError::MissingRpmBytes(b) && b@ == bytes)
}

/// Decodes the cleaned reply to a PID request: its hex bytes, then the
/// PID's formula.
pub fn decode_pid_reply(p: Pid, raw: &str) -> (r: Result<Reading, ObdError>)
    ensures
        r is Ok <==> reading_of(p, hex_bytes_in(raw@)) is Some,
        r matches Ok(v) ==> reading_of(p, hex_bytes_in(raw@)) == Some(v),
        r matches Err(e) ==> if hex_bytes_in(raw@).len() == 0 {
            e matches ObdError::NoHexBytes(t) && t@ == raw@
        } else {
            pid_error(p, hex_bytes_in(raw@), e)
        },
{
    let bytes = extract_hex_bytes(raw)?;
    let b = bytes.as_slice();
    match p {
        Pid::EngineRpm => Ok(Reading::Rpm(parse_rpm(b)?)),
        Pid::VehicleSpeed => Ok(Reading::SpeedKph(parse_speed(b)?)),
        Pid::CoolantTemp => Ok(Reading::CoolantC(parse_temp_coolant(b)?)),
        Pid::ThrottlePosition => Ok(Reading::ThrottlePct(parse_throttle(b)?)),
    }
}

/// The PIDs a snapshot asks for, in the order they are asked.
pub open spec fn snapshot_pid_order() -> Seq<Pid> {
    seq![Pid::EngineRpm, Pid::VehicleSpeed, Pid::CoolantTemp, Pid::ThrottlePosition]
}

/// The PIDs a snapshot asks for, in order; the battery voltage is asked for
/// after them with [`voltage_request`].
pub fn snapshot_pids() -> (r: Vec<Pid>)
    ensures
        r@ == snapshot_pid_order(),
{
    let r = vec![Pid::EngineRpm, Pid::VehicleSpeed, Pid::CoolantTemp, Pid::ThrottlePosition];
    assert(r@ =~= snapshot_pid_order());
    r
}

/// The battery-voltage request, `ATRV`.
pub fn voltage_request() -> (r: String)
    ensures
        r@ == seq!['A', 'T', 'R', 'V'],
{
    let mut r = String::new();
    crate::text::push_char(&mut r, 'A');
    crate::text::push_char(&mut r, 'T');
    crate::text::push_char(&mut r, 'R');
    crate::text::push_char(&mut r, 'V');
    assert(r@ =~= seq!['A', 'T', 'R', 'V']);
    r
}

/// The PID formulas on every positive reply: for all data bytes `A` and
/// `B`, engine speed `0C` is `((A * 256) + B) / 4` rpm, vehicle speed `0D` is
/// `A` km/h, coolant `05` is `A - 40` °C, throttle `11` is `A * 100 / 255` %.
pub proof fn law_pid_formulas(a: u8, b: u8)
    ensures
        rpm_of(seq![0x41u8, 0x0Cu8, a, b]) == Some(((a as int * 256 + b as int) / 4) as u16),
        ((a as int * 256 + b as int) / 4) <= 16383,
        speed_of(seq![0x41u8, 0x0Du8, a]) == Some(a),
        coolant_of(seq![0x41u8, 0x05u8, a]) == Some((a as int - 40) as i16),
        -40 <= a as int - 40 <= 215,
        throttle_of(seq![0x41u8, 0x11u8, a]) == Some((a as int * 100 / 255) as u8),
        0 <= a as int * 100 / 255 <= 100,
{
    assert(seq![0x41u8, 0x0Cu8, a, b].subrange(2, 4) =~= seq![a, b]);
    assert(seq![0x41u8, 0x0Du8, a].subrange(2, 3) =~= seq![a]);
    assert(seq![0x41u8, 0x05u8, a].subrange(2, 3) =~= seq![a]);
    assert(seq![0x41u8, 0x11u8, a].subrange(2, 3) =~= seq![a]);
    assert(a as int * 100 / 255 <= 100) by (nonlinear_arith)
        requires
            a as int <= 255,
    ;
}

/// A reply written as spaced hex, `41 0D A`, decodes to a speed of `A` km/h
/// for every byte `A`; likewise `41 0C A B`, `41 05 A` and `41 11 A` decode
/// by their formulas.
pub proof fn law_spaced_replies_decode(a: u8, b: u8)
    ensures
        reading_of(Pid::VehicleSpeed, hex_bytes_in(spaced_hex(seq![0x41u8, 0x0Du8, a])))
            == Some(Reading::SpeedKph(a)),
        reading_of(Pid::EngineRpm, hex_bytes_in(spaced_hex(seq![0x41u8, 0x0Cu8, a, b])))
            == Some(Reading::Rpm(((a as int * 256 + b as int) / 4) as u16)),
        reading_of(Pid::CoolantTemp, hex_bytes_in(spaced_hex(seq![0x41u8, 0x05u8, a])))
            == Some(Reading::CoolantC((a as int - 40) as i16)),
        reading_of(Pid::ThrottlePosition, hex_bytes_in(spaced_hex(seq![0x41u8, 0x11u8, a])))
            == Some(Reading::ThrottlePct((a as int * 100 / 255) as u8)),
{
    law_pid_formulas(a, b);
    law_spaced_hex_round_trip(seq![0x41u8, 0x0Du8, a]);
    law_spaced_hex_round_trip(seq![0x41u8, 0x0Cu8, a, b]);
    law_spaced_hex_round_trip(seq![0x41u8, 0x05u8, a]);
    law_spaced_hex_round_trip(seq![0x41u8, 0x11u8, a]);
}

/// A reply whose header does not name the PID asked for never gives a
/// reading, whatever its data.
pub proof fn law_wrong_pid_gives_nothing(p: Pid, q: u8, data: Seq<u8>)
    requires
        q != pid_number(p),
    ensures
        reading_of(p, seq![0x41u8, q] + data) is None,
{
    let bs = seq![0x41u8, q] + data;
    assert(bs[1] == q);
}

} // verus!
