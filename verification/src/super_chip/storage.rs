use vstd::prelude::*;

use crate::emulator::chip_emulator::ChipEmulator;
use crate::emulator::state::{spec_set_v, state_wf, EmuState};
use crate::emulator::traits::Chip;
use crate::super_chip::super_chip_opcode::{save_request, StorageError, StorageRequestView};

verus! {

/// The byte `:` that separates a register from its value in a save file.
pub const SEPARATOR: u8 = 0x3A;

/// The byte `\n` that ends a line.
pub const NEWLINE: u8 = 0x0A;

/// The byte `\r` that may come before a `\n`.
pub const CARRIAGE_RETURN: u8 = 0x0D;

/// The byte `+` that may start a number.
pub const PLUS: u8 = 0x2B;

/// The byte `0`.
pub const DIGIT_ZERO: u8 = 0x30;

/// The highest register that can be saved.
pub const MAX_SAVED_REGISTER: u8 = 7;

/// The decimal digits of `x`, most significant first, without leading zeros.
pub open spec fn decimal(x: nat) -> Seq<u8>
    decreases x,
{
    if x < 10 {
        seq![(DIGIT_ZERO + x) as u8]
    } else {
        decimal(x / 10) + seq![(DIGIT_ZERO + x % 10) as u8]
    }
}

/// The line `register:value` of a save file.
pub open spec fn save_entry(v: Seq<u8>, register: int) -> Seq<u8> {
    decimal(register as nat) + seq![SEPARATOR] + decimal(v[register] as nat)
}

/// The lines for registers `0`..`count`, joined by `\n`.
pub open spec fn save_lines(v: Seq<u8>, count: int) -> Seq<u8>
    decreases count,
{
    if count <= 1 {
        save_entry(v, 0)
    } else {
        save_lines(v, count - 1) + seq![NEWLINE] + save_entry(v, count - 1)
    }
}

/// The save file of registers `V0`..=`Vmax`: one `register:value` line each.
pub open spec fn save_text(v: Seq<u8>, max_registry: u8) -> Seq<u8> {
    save_lines(v, max_registry + 1)
}

/// Appends the decimal digits of `x`.
fn push_decimal(out: &mut Vec<u8>, x: u8)
    ensures
        final(out)@ == old(out)@ + decimal(x as nat),
{
    proof {
        reveal_with_fuel(decimal, 3);
    }
    if x >= 100 {
        out.push(DIGIT_ZERO + x / 100);
    }
    if x >= 10 {
        out.push(DIGIT_ZERO + (x / 10) % 10);
    }
    out.push(DIGIT_ZERO + x % 10);
    proof {
        if x >= 100 {
            assert(decimal(x as nat) =~= seq![(DIGIT_ZERO + x / 100) as u8, (DIGIT_ZERO + (x / 10)
                % 10) as u8, (DIGIT_ZERO + x % 10) as u8]);
        } else if x >= 10 {
            assert(decimal(x as nat) =~= seq![(DIGIT_ZERO + (x / 10) % 10) as u8, (DIGIT_ZERO + x
                % 10) as u8]);
        }
        assert(final(out)@ =~= old(out)@ + decimal(x as nat));
    }
}

/// The save file of registers `V0`..=`Vmax`.
pub fn format_save<C: Chip>(emu: &ChipEmulator<C>, max_registry: u8) -> (text: Vec<u8>)
    requires
        max_registry <= 15,
    ensures
        text@ == save_text(emu@.v_registers, max_registry),
{
    proof {
        emu.lemma_wf();
    }
    let mut save: Vec<u8> = Vec::new();
    let mut registry: u8 = 0;
    while registry <= max_registry
        invariant
            registry <= max_registry + 1,
            max_registry <= 15,
            state_wf(emu@),
            registry == 0 ==> save@.len() == 0,
            registry > 0 ==> save@ == save_lines(emu@.v_registers, registry as int),
        decreases max_registry + 1 - registry,
    {
        if registry > 0 {
            save.push(NEWLINE);
        }
        push_decimal(&mut save, registry);
        save.push(SEPARATOR);
        push_decimal(&mut save, emu.get_v(registry));
        proof {
            if registry == 0 {
                assert(save@ =~= save_entry(emu@.v_registers, 0));
            } else {
                assert(save@ =~= save_lines(emu@.v_registers, registry as int) + seq![NEWLINE]
                    + save_entry(emu@.v_registers, registry as int));
            }
        }
        registry = registry + 1;
    }
    save
}


/// The first index at or after `from` where `t` holds `b`.
pub open spec fn find_byte(t: Seq<u8>, b: u8, from: int) -> Option<int>
    decreases t.len() - from,
{
    if from < 0 || from >= t.len() {
        None
    } else if t[from] == b {
        Some(from)
    } else {
        find_byte(t, b, from + 1)
    }
}

/// An index that `find_byte` finds holds `b`, lies at or after `from`, and no earlier one does.
pub proof fn lemma_find_byte(t: Seq<u8>, b: u8, from: int)
    requires
        0 <= from,
    ensures
        match find_byte(t, b, from) {
            Some(p) => from <= p < t.len() && t[p] == b && forall|i: int|
                from <= i < p ==> t[i] != b,
            None => forall|i: int| from <= i < t.len() ==> t[i] != b,
        },
    decreases t.len() - from,
{
    if from < t.len() && t[from] != b {
        lemma_find_byte(t, b, from + 1);
    }
}

/// A line without its `\r` ending, if it has one.
pub open spec fn strip_cr(line: Seq<u8>) -> Seq<u8> {
    if line.len() > 0 && line.last() == CARRIAGE_RETURN {
        line.drop_last()
    } else {
        line
    }
}

/// The lines of a text, as `str::lines` gives them: split at `\n` or `\r\n`; a final line
/// ending adds no empty line.
pub open spec fn text_lines(t: Seq<u8>) -> Seq<Seq<u8>>
    decreases t.len(),
{
    if t.len() == 0 {
        seq![]
    } else {
        match find_byte(t, NEWLINE, 0) {
            Some(p) => {
                proof {
                    lemma_find_byte(t, NEWLINE, 0);
                }
                seq![strip_cr(t.take(p))] + text_lines(t.skip(p + 1))
            },
            None => seq![t],
        }
    }
}

/// Every byte is a decimal digit.
pub open spec fn all_digits(d: Seq<u8>) -> bool {
    forall|i: int| 0 <= i < d.len() ==> DIGIT_ZERO <= #[trigger] d[i] <= DIGIT_ZERO + 9
}

/// The number that decimal digits spell.
pub open spec fn decimal_value(d: Seq<u8>) -> nat
    decreases d.len(),
{
    if d.len() == 0 {
        0
    } else {
        decimal_value(d.drop_last()) * 10 + (d.last() - DIGIT_ZERO) as nat
    }
}

/// `str::parse::<u8>`: an optional `+`, then at least one decimal digit, spelling at most 255.
pub open spec fn parsed_u8(t: Seq<u8>) -> Option<u8> {
    let digits = if t.len() > 0 && t[0] == PLUS {
        t.drop_first()
    } else {
        t
    };
    if digits.len() > 0 && all_digits(digits) && decimal_value(digits) <= 255 {
        Some(decimal_value(digits) as u8)
    } else {
        None
    }
}

/// One line of a save file, applied: `key:value` sets register `key` when it is at most
/// `max_registry`; a line without `:` is skipped. `None` when the key or value does not parse.
pub open spec fn apply_save_line(s: EmuState, line: Seq<u8>, max_registry: u8) -> Option<EmuState> {
    match find_byte(line, SEPARATOR, 0) {
        None => Some(s),
        Some(p) => match parsed_u8(line.take(p)) {
            None => None,
            Some(key) => if key > max_registry {
                Some(s)
            } else {
                match parsed_u8(line.skip(p + 1)) {
                    None => None,
                    Some(value) => Some(spec_set_v(s, key, value)),
                }
            },
        },
    }
}

/// The lines applied in order; the first line that does not parse stops the load, and the
/// lines before it stay applied.
pub open spec fn apply_save_lines(s: EmuState, lines: Seq<Seq<u8>>, max_registry: u8) -> (
    EmuState,
    Result<(), StorageError>,
)
    decreases lines.len(),
{
    if lines.len() == 0 {
        (s, Ok(()))
    } else {
        match apply_save_line(s, lines[0], max_registry) {
            None => (s, Err(StorageError::InvailidKey)),
            Some(t) => apply_save_lines(t, lines.drop_first(), max_registry),
        }
    }
}

/// Loading the save file `text` into registers `V0`..=`Vmax`.
pub open spec fn spec_load_from_storage(s: EmuState, text: Seq<u8>, max_registry: u8) -> (
    EmuState,
    Result<(), StorageError>,
) {
    if s.game_id is None {
        (s, Err(StorageError::NoGameId))
    } else if max_registry > MAX_SAVED_REGISTER {
        (s, Err(StorageError::RegistyTooHigh))
    } else {
        apply_save_lines(s, text_lines(text), max_registry)
    }
}

/// The first index at or after `from` where `t` holds `b`.
fn find_byte_from(t: &[u8], b: u8, from: usize) -> (found: Option<usize>)
    ensures
        match found {
            Some(p) => find_byte(t@, b, from as int) == Some(p as int),
            None => find_byte(t@, b, from as int) is None,
        },
{
    let mut i = from;
    while i < t.len()
        invariant
            from <= i,
            find_byte(t@, b, from as int) == find_byte(t@, b, i as int),
        decreases t.len() - i,
    {
        if t[i] == b {
            return Some(i);
        }
        i = i + 1;
    }
    None
}

/// `str::parse::<u8>` on the bytes of `t`.
pub fn parse_u8(t: &[u8]) -> (value: Option<u8>)
    ensures
        value == parsed_u8(t@),
{
    let start: usize = if t.len() > 0 && t[0] == PLUS {
        1
    } else {
        0
    };
    let ghost digits = t@.skip(start as int);
    proof {
        if t.len() > 0 && t[0] == PLUS {
            assert(digits =~= t@.drop_first());
        } else {
            assert(digits =~= t@);
        }
    }
    if start >= t.len() {
        return None;
    }
    let mut acc: u16 = 0;
    let mut i = start;
    while i < t.len()
        invariant
            start <= i <= t@.len(),
            start < t@.len(),
            digits == t@.skip(start as int),
            digits == (if t@.len() > 0 && t@[0] == PLUS {
                t@.drop_first()
            } else {
                t@
            }),
            all_digits(digits.take(i - start)),
            acc == if decimal_value(digits.take(i - start)) <= 256 {
                decimal_value(digits.take(i - start))
            } else {
                256
            },
        decreases t.len() - i,
    {
        let c = t[i];
        if c < DIGIT_ZERO || c > DIGIT_ZERO + 9 {
            proof {
                assert(digits[i - start] == c);
                assert(!(DIGIT_ZERO <= digits[i - start] <= DIGIT_ZERO + 9));
                assert(!all_digits(digits));
                assert(digits == (if t@.len() > 0 && t@[0] == PLUS {
                    t@.drop_first()
                } else {
                    t@
                }));
                assert(parsed_u8(t@) is None);
            }
            return None;
        }
        let next = acc * 10 + (c - DIGIT_ZERO) as u16;
        acc = if next > 256 {
            256
        } else {
            next
        };
        proof {
            let k = i - start;
            assert(digits.take(k + 1).drop_last() =~= digits.take(k));
            assert(digits.take(k + 1).last() == c);
            assert(all_digits(digits.take(k + 1)));
        }
        i = i + 1;
    }
    proof {
        assert(digits.take(i - start) =~= digits);
    }
    if acc > 255 {
        None
    } else {
        Some(acc as u8)
    }
}

/// Applies one line of a save file.
fn load_save_line<C: Chip>(emu: &mut ChipEmulator<C>, line: &[u8], max_registry: u8) -> (ok: bool)
    requires
        max_registry <= MAX_SAVED_REGISTER,
    ensures
        match apply_save_line(old(emu)@, line@, max_registry) {
            Some(t) => ok && final(emu)@ == t,
            None => !ok && final(emu)@ == old(emu)@,
        },
{
    match find_byte_from(line, SEPARATOR, 0) {
        None => true,
        Some(p) => {
            proof {
                lemma_find_byte(line@, SEPARATOR, 0);
                assert(p < line@.len());
            }
            let key_text = vstd::slice::slice_subrange(line, 0, p);
            assert(p < line.len());
            let value_text = vstd::slice::slice_subrange(line, p + 1, line.len());
            proof {
                assert(key_text@ =~= line@.take(p as int));
                assert(value_text@ =~= line@.skip(p + 1));
            }
            match parse_u8(key_text) {
                None => false,
                Some(key) => {
                    if key > max_registry {
                        true
                    } else {
                        match parse_u8(value_text) {
                            None => false,
                            Some(value) => {
                                emu.set_v(key, value);
                                true
                            },
                        }
                    }
                },
            }
        },
    }
}

/// Loads the save file `save_file` into registers `V0`..=`Vmax` of the running program.
pub fn load_from_storage<C: Chip>(emu: &mut ChipEmulator<C>, save_file: &[u8], max_registry: u8) -> (result: Result<(), StorageError>)
    ensures
        (final(emu)@, result) == spec_load_from_storage(old(emu)@, save_file@, max_registry),
{
    if emu.get_game_id().is_none() {
        return Err(StorageError::NoGameId);
    }
    if max_registry > MAX_SAVED_REGISTER {
        return Err(StorageError::RegistyTooHigh);
    }
    let ghost s = emu@;
    let len = save_file.len();
    proof {
        assert(save_file@.skip(0) =~= save_file@);
    }
    let mut start: usize = 0;
    while start < len
        invariant
            start <= len == save_file@.len(),
            max_registry <= MAX_SAVED_REGISTER,
            s == old(emu)@,
            spec_load_from_storage(s, save_file@, max_registry) == apply_save_lines(
                emu@,
                text_lines(save_file@.skip(start as int)),
                max_registry,
            ),
        decreases len - start,
    {
        let ghost rest = save_file@.skip(start as int);
        let (end, next) = match find_byte_from(save_file, NEWLINE, start) {
            Some(p) => {
                proof {
                    lemma_find_byte(save_file@, NEWLINE, start as int);
                    lemma_find_byte_shift(save_file@, NEWLINE, start as int);
                }
                if p > start && save_file[p - 1] == CARRIAGE_RETURN {
                    (p - 1, p + 1)
                } else {
                    (p, p + 1)
                }
            },
            None => {
                proof {
                    lemma_find_byte_shift(save_file@, NEWLINE, start as int);
                }
                (len, len)
            },
        };
        let line = vstd::slice::slice_subrange(save_file, start, end);
        proof {
            let lines = text_lines(rest);
            assert(rest.len() > 0);
            assert(lines.len() > 0);
            assert(line@ == lines[0]) by {
                match find_byte(rest, NEWLINE, 0) {
                    Some(q) => {
                        assert(rest.take(q) =~= save_file@.subrange(start as int, start + q));
                        if q > 0 && rest.take(q).last() == CARRIAGE_RETURN {
                            assert(line@ =~= rest.take(q).drop_last());
                        } else {
                            assert(line@ =~= rest.take(q));
                        }
                    },
                    None => {
                        assert(line@ =~= rest);
                    },
                }
            }
            assert(save_file@.skip(next as int) =~= match find_byte(rest, NEWLINE, 0) {
                Some(q) => rest.skip(q + 1),
                None => rest.skip(rest.len() as int),
            });
            match find_byte(rest, NEWLINE, 0) {
                Some(q) => {
                    assert(lines.drop_first() =~= text_lines(save_file@.skip(next as int)));
                },
                None => {
                    assert(lines.drop_first() =~= text_lines(save_file@.skip(next as int)));
                },
            }
        }
        let ghost before = emu@;
        let ok = load_save_line(emu, line, max_registry);
        proof {
            let lines = text_lines(rest);
            assert(apply_save_lines(before, lines, max_registry) == match apply_save_line(
                before,
                lines[0],
                max_registry,
            ) {
                None => (before, Err(StorageError::InvailidKey)),
                Some(t) => apply_save_lines(t, lines.drop_first(), max_registry),
            });
        }
        if !ok {
            proof {
                assert(apply_save_line(before, line@, max_registry) is None);
                assert(emu@ == before);
                assert(spec_load_from_storage(s, save_file@, max_registry) == (
                    before,
                    Err::<(), StorageError>(StorageError::InvailidKey),
                ));
            }
            return Err(StorageError::InvailidKey);
        }
        start = next;
    }
    proof {
        assert(save_file@.skip(start as int) =~= Seq::<u8>::empty());
    }
    Ok(())
}

/// Searching a suffix of `t` finds what searching `t` from the suffix's start finds.
proof fn lemma_find_byte_shift(t: Seq<u8>, b: u8, start: int)
    requires
        0 <= start <= t.len(),
    ensures
        match find_byte(t, b, start) {
            Some(p) => find_byte(t.skip(start), b, 0) == Some(p - start),
            None => find_byte(t.skip(start), b, 0) is None,
        },
{
    lemma_find_byte(t, b, start);
    lemma_find_byte(t.skip(start), b, 0);
    match find_byte(t, b, start) {
        Some(p) => {
            assert(t.skip(start)[p - start] == b);
            match find_byte(t.skip(start), b, 0) {
                Some(q) => {
                    assert(t[start + q] == b);
                },
                None => {},
            }
        },
        None => {
            match find_byte(t.skip(start), b, 0) {
                Some(q) => {
                    assert(t[start + q] == b);
                },
                None => {},
            }
        },
    }
}


/// The registers `V0`..`Vupto` of a running program replaced by those of `saved`.
pub open spec fn restored(t: EmuState, saved: Seq<u8>, upto: int) -> EmuState {
    if t.has_memory_loaded {
        EmuState {
            v_registers: Seq::new(
                16,
                |j: int|
                    if j < upto {
                        saved[j]
                    } else {
                        t.v_registers[j]
                    },
            ),
            ..t
        }
    } else {
        t
    }
}

/// The decimal digits of a number spell it, are digits, and are at least one.
pub proof fn lemma_decimal(x: nat)
    ensures
        decimal(x).len() > 0,
        all_digits(decimal(x)),
        decimal_value(decimal(x)) == x,
    decreases x,
{
    if x >= 10 {
        lemma_decimal(x / 10);
        let d = decimal(x);
        assert(d.drop_last() =~= decimal(x / 10));
        assert(d.last() == (DIGIT_ZERO + x % 10) as u8);
        assert(decimal_value(d) == decimal_value(decimal(x / 10)) * 10 + x % 10);
        assert((x / 10) * 10 + x % 10 == x);
        assert(all_digits(d)) by {
            assert forall|i: int| 0 <= i < d.len() implies DIGIT_ZERO <= #[trigger] d[i]
                <= DIGIT_ZERO + 9 by {
                if i < d.len() - 1 {
                    assert(d[i] == decimal(x / 10)[i]);
                }
            }
        }
    } else {
        let d = decimal(x);
        assert(d.drop_last() =~= Seq::<u8>::empty());
        assert(decimal_value(d) == decimal_value(d.drop_last()) * 10 + x);
    }
}

/// Digits hold none of the bytes `\n`, `\r`, `:`, `+`.
proof fn lemma_digits_not_special(d: Seq<u8>, i: int)
    requires
        all_digits(d),
        0 <= i < d.len(),
    ensures
        d[i] != NEWLINE,
        d[i] != CARRIAGE_RETURN,
        d[i] != SEPARATOR,
        d[i] != PLUS,
{
}

/// Decimal digits parse back to the number they spell.
pub proof fn lemma_parse_decimal(x: u8)
    ensures
        parsed_u8(decimal(x as nat)) == Some(x),
{
    lemma_decimal(x as nat);
    lemma_digits_not_special(decimal(x as nat), 0);
}

/// The shape of a save file line: the register's digits, `:`, the value's digits.
proof fn lemma_save_entry(v: Seq<u8>, k: int)
    requires
        0 <= k < 16,
    ensures
        ({
            let e = save_entry(v, k);
            let p = decimal(k as nat).len() as int;
            &&& e.len() > 0
            &&& find_byte(e, SEPARATOR, 0) == Some(p)
            &&& e.take(p) == decimal(k as nat)
            &&& e.skip(p + 1) == decimal(v[k] as nat)
            &&& find_byte(e, NEWLINE, 0) is None
            &&& e.last() != NEWLINE
            &&& e.last() != CARRIAGE_RETURN
        }),
{
    let e = save_entry(v, k);
    let dk = decimal(k as nat);
    let dv = decimal(v[k] as nat);
    let p = dk.len() as int;
    lemma_decimal(k as nat);
    lemma_decimal(v[k] as nat);
    assert(e.take(p) =~= dk);
    assert(e.skip(p + 1) =~= dv);
    assert(e[p] == SEPARATOR);
    lemma_find_byte(e, SEPARATOR, 0);
    assert forall|i: int| 0 <= i < p implies e[i] != SEPARATOR by {
        assert(e[i] == dk[i]);
        lemma_digits_not_special(dk, i);
    }
    lemma_find_byte(e, NEWLINE, 0);
    assert forall|i: int| 0 <= i < e.len() implies e[i] != NEWLINE by {
        if i < p {
            assert(e[i] == dk[i]);
            lemma_digits_not_special(dk, i);
        } else if i > p {
            assert(e[i] == dv[i - p - 1]);
            lemma_digits_not_special(dv, i - p - 1);
        }
    }
    assert(e.last() == dv.last());
    lemma_digits_not_special(dv, dv.len() - 1);
}

/// Where `x` holds no `b` before `k`, searching `x + z` from `k` finds what searching `x`
/// finds, or the first `b` of `z`.
proof fn lemma_find_byte_prefix(x: Seq<u8>, z: Seq<u8>, b: u8)
    requires
        z.len() > 0,
        z[0] == b,
    ensures
        find_byte(x + z, b, 0) == match find_byte(x, b, 0) {
            Some(p) => Some(p),
            None => Some(x.len() as int),
        },
{
    let xz = x + z;
    lemma_find_byte(x, b, 0);
    lemma_find_byte(xz, b, 0);
    match find_byte(x, b, 0) {
        Some(p) => {
            assert(xz[p] == b);
            match find_byte(xz, b, 0) {
                Some(q) => {
                    if q < p {
                        assert(x[q] == xz[q]);
                    }
                },
                None => {},
            }
        },
        None => {
            assert(xz[x.len() as int] == b);
            match find_byte(xz, b, 0) {
                Some(q) => {
                    if q < x.len() {
                        assert(x[q] == xz[q]);
                    }
                },
                None => {},
            }
        },
    }
}

/// The lines of `x` and `y` joined by a line ending are the lines of `x`, then those of `y`,
/// when `x` does not end in a line ending of its own.
pub proof fn lemma_text_lines_join(x: Seq<u8>, y: Seq<u8>)
    requires
        x.len() > 0,
        x.last() != NEWLINE,
        x.last() != CARRIAGE_RETURN,
    ensures
        text_lines(x + seq![NEWLINE] + y) == text_lines(x) + text_lines(y),
    decreases x.len(),
{
    let z = x + seq![NEWLINE] + y;
    assert(z =~= x + (seq![NEWLINE] + y));
    lemma_find_byte_prefix(x, seq![NEWLINE] + y, NEWLINE);
    lemma_find_byte(x, NEWLINE, 0);
    match find_byte(x, NEWLINE, 0) {
        Some(p) => {
            assert(p < x.len() - 1);
            let x2 = x.skip(p + 1);
            assert(z.take(p) =~= x.take(p));
            assert(z.skip(p + 1) =~= x2 + seq![NEWLINE] + y);
            assert(x2.last() == x.last());
            lemma_text_lines_join(x2, y);
            assert(text_lines(z) =~= text_lines(x) + text_lines(y));
        },
        None => {
            assert(z.take(x.len() as int) =~= x);
            assert(z.skip(x.len() as int + 1) =~= y);
            assert(strip_cr(x) == x);
            assert(text_lines(z) =~= text_lines(x) + text_lines(y));
        },
    }
}

/// The lines of a save file are its entries.
pub proof fn lemma_save_lines(v: Seq<u8>, count: int)
    requires
        1 <= count <= 16,
    ensures
        text_lines(save_lines(v, count)) == Seq::new(count as nat, |k: int| save_entry(v, k)),
        save_lines(v, count).len() > 0,
        save_lines(v, count).last() != NEWLINE,
        save_lines(v, count).last() != CARRIAGE_RETURN,
    decreases count,
{
    lemma_save_entry(v, count - 1);
    let e = save_entry(v, count - 1);
    assert(text_lines(e) =~= seq![e]);
    if count > 1 {
        lemma_save_lines(v, count - 1);
        lemma_text_lines_join(save_lines(v, count - 1), e);
        assert(text_lines(save_lines(v, count)) =~= Seq::new(
            count as nat,
            |k: int| save_entry(v, k),
        ));
    } else {
        assert(text_lines(save_lines(v, count)) =~= Seq::new(
            count as nat,
            |k: int| save_entry(v, k),
        ));
    }
}

/// Applying the entries of registers `k`..`count` to a state whose registers below `k` are
/// restored restores them all.
pub proof fn lemma_apply_entries(t: EmuState, saved: Seq<u8>, max_registry: u8, k: int)
    requires
        state_wf(t),
        saved.len() == 16,
        max_registry < 16,
        0 <= k <= max_registry + 1,
    ensures
        apply_save_lines(
            restored(t, saved, k),
            Seq::new((max_registry + 1) as nat, |j: int| save_entry(saved, j)).skip(k),
            max_registry,
        ) == (restored(t, saved, max_registry + 1), Ok::<(), StorageError>(())),
    decreases max_registry + 1 - k,
{
    let entries = Seq::new((max_registry + 1) as nat, |j: int| save_entry(saved, j));
    let rest = entries.skip(k);
    if k == max_registry + 1 {
        assert(rest.len() == 0);
    } else {
        lemma_save_entry(saved, k);
        lemma_parse_decimal(k as u8);
        lemma_parse_decimal(saved[k]);
        assert(rest[0] == save_entry(saved, k));
        assert(decimal(k as nat) == decimal((k as u8) as nat));
        let next = spec_set_v(restored(t, saved, k), k as u8, saved[k]);
        assert(apply_save_line(restored(t, saved, k), rest[0], max_registry) == Some(next));
        assert(next =~= restored(t, saved, k + 1));
        assert(rest.drop_first() =~= entries.skip(k + 1));
        lemma_apply_entries(t, saved, max_registry, k + 1);
    }
}

/// The save file of registers `V0`..=`Vmax` of the running program, with the program's id;
/// fails when no program is loaded or `max_registry` is above `MAX_SAVED_REGISTER`.
pub fn save_to_storage<C: Chip>(emu: &ChipEmulator<C>, max_registry: u8) -> (result: Result<
    (u64, Vec<u8>),
    StorageError,
>)
    ensures
        match save_request(emu@, max_registry) {
            StorageRequestView::Save { game_id, contents } => result matches Ok((id, text)) && id
                == game_id && text@ == contents,
            StorageRequestView::Failed(e) => result matches Err(f) && f == e,
            StorageRequestView::Load { .. } => false,
        },
{
    match emu.get_game_id() {
        Some(id) => {
            if max_registry > MAX_SAVED_REGISTER {
                return Err(StorageError::RegistyTooHigh);
            }
            Ok((id, format_save(emu, max_registry)))
        },
        None => Err(StorageError::NoGameId),
    }
}

} // verus!
