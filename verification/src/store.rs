//! The task store codec: the persisted representation is UTF-8 text, one
//! record per task. A record is the task id as 32 hexadecimal digits, the
//! status as one of three fixed word tags, then name and description each as
//! a 32-digit hexadecimal length followed by that many characters, the parts
//! separated by single spaces and the record closed by a newline. Numbers
//! are fixed-width, so every value below 16^32 (= one more than `u128::MAX`)
//! has exactly one encoding and parsing can never overflow.

use vstd::prelude::*;

use crate::task::{tasks_view, Error, Task, TaskStatus, TaskView};

verus! {

/// 16 raised to `w`: the number of values a `w`-digit hexadecimal can hold.
pub open spec fn pow16(w: nat) -> nat
    decreases w,
{
    if w == 0 {
        1
    } else {
        16 * pow16((w - 1) as nat)
    }
}

/// The character for one hexadecimal digit value.
pub open spec fn hex_digit_char(d: nat) -> char {
    if d == 0 {
        '0'
    } else if d == 1 {
        '1'
    } else if d == 2 {
        '2'
    } else if d == 3 {
        '3'
    } else if d == 4 {
        '4'
    } else if d == 5 {
        '5'
    } else if d == 6 {
        '6'
    } else if d == 7 {
        '7'
    } else if d == 8 {
        '8'
    } else if d == 9 {
        '9'
    } else if d == 10 {
        'a'
    } else if d == 11 {
        'b'
    } else if d == 12 {
        'c'
    } else if d == 13 {
        'd'
    } else if d == 14 {
        'e'
    } else {
        'f'
    }
}

/// Whether a character is a lower-case hexadecimal digit.
pub open spec fn is_hex_digit(c: char) -> bool {
    ||| c == '0'
    ||| c == '1'
    ||| c == '2'
    ||| c == '3'
    ||| c == '4'
    ||| c == '5'
    ||| c == '6'
    ||| c == '7'
    ||| c == '8'
    ||| c == '9'
    ||| c == 'a'
    ||| c == 'b'
    ||| c == 'c'
    ||| c == 'd'
    ||| c == 'e'
    ||| c == 'f'
}

/// The value of one hexadecimal digit character.
pub open spec fn hex_char_val(c: char) -> nat {
    if c == '0' {
        0
    } else if c == '1' {
        1
    } else if c == '2' {
        2
    } else if c == '3' {
        3
    } else if c == '4' {
        4
    } else if c == '5' {
        5
    } else if c == '6' {
        6
    } else if c == '7' {
        7
    } else if c == '8' {
        8
    } else if c == '9' {
        9
    } else if c == 'a' {
        10
    } else if c == 'b' {
        11
    } else if c == 'c' {
        12
    } else if c == 'd' {
        13
    } else if c == 'e' {
        14
    } else {
        15
    }
}

/// The `w`-digit hexadecimal rendering of `n` (most significant first,
/// truncating above 16^w).
pub open spec fn hex_digits(n: nat, w: nat) -> Seq<char>
    decreases w,
{
    if w == 0 {
        Seq::empty()
    } else {
        hex_digits(n / 16, (w - 1) as nat) + seq![hex_digit_char(n % 16)]
    }
}

/// The value of a hexadecimal digit string, most significant first.
pub open spec fn hex_val(s: Seq<char>) -> nat
    decreases s.len(),
{
    if s.len() == 0 {
        0
    } else {
        hex_val(s.drop_last()) * 16 + hex_char_val(s.last())
    }
}

/// Whether every character of `s` is a hexadecimal digit.
pub open spec fn all_hex(s: Seq<char>) -> bool {
    forall|i: int| 0 <= i < s.len() ==> is_hex_digit(#[trigger] s[i])
}

/// pow16 grows monotonically with the width.
pub proof fn lemma_pow16_monotone(a: nat, b: nat)
    requires
        a <= b,
    ensures
        pow16(a) <= pow16(b),
    decreases b,
{
    if a < b {
        lemma_pow16_monotone(a, (b - 1) as nat);
    }
}

/// A `w`-digit rendering has width `w` and only hexadecimal digits.
pub proof fn lemma_hex_digits_shape(n: nat, w: nat)
    ensures
        hex_digits(n, w).len() == w,
        all_hex(hex_digits(n, w)),
    decreases w,
{
    if w > 0 {
        lemma_hex_digits_shape(n / 16, (w - 1) as nat);
        assert(is_hex_digit(hex_digit_char(n % 16)));
    }
}

/// Rendering then evaluating gives the number back, for numbers the width
/// can hold.
pub proof fn lemma_hex_digits_val(n: nat, w: nat)
    requires
        n < pow16(w),
    ensures
        hex_val(hex_digits(n, w)) == n,
    decreases w,
{
    if w == 0 {
        assert(n == 0);
    } else {
        let q = n / 16;
        let r = n % 16;
        vstd::arithmetic::div_mod::lemma_fundamental_div_mod(n as int, 16);
        assert(n == 16 * q + r);
        assert(q < pow16((w - 1) as nat)) by {
            if q >= pow16((w - 1) as nat) {
                assert(16 * q >= 16 * pow16((w - 1) as nat)) by (nonlinear_arith)
                    requires
                        q >= pow16((w - 1) as nat),
                ;
            }
        }
        lemma_hex_digits_val(q, (w - 1) as nat);
        lemma_hex_digits_shape(q, (w - 1) as nat);
        let s = hex_digits(n, w);
        assert(s.drop_last() =~= hex_digits(q, (w - 1) as nat));
        assert(s.last() == hex_digit_char(r));
        assert(hex_char_val(hex_digit_char(r)) == r);
    }
}

/// The value of a hexadecimal digit string is below 16 to its length.
pub proof fn lemma_hex_val_bound(s: Seq<char>)
    requires
        all_hex(s),
    ensures
        hex_val(s) < pow16(s.len()),
    decreases s.len(),
{
    if s.len() > 0 {
        assert(all_hex(s.drop_last()));
        lemma_hex_val_bound(s.drop_last());
        let v = hex_val(s.drop_last());
        let p = pow16((s.len() - 1) as nat);
        assert(hex_char_val(s.last()) < 16);
        assert(v * 16 + hex_char_val(s.last()) < p * 16) by (nonlinear_arith)
            requires
                v < p,
                hex_char_val(s.last()) < 16,
        ;
        assert(pow16(s.len()) == 16 * p);
    }
}

/// Evaluating then re-rendering at the same width gives the string back:
/// fixed-width hexadecimal is a canonical encoding.
pub proof fn lemma_hex_canonical(s: Seq<char>)
    requires
        all_hex(s),
    ensures
        hex_digits(hex_val(s), s.len()) == s,
    decreases s.len(),
{
    if s.len() == 0 {
        assert(hex_digits(0, 0) =~= s);
    } else {
        let front = s.drop_last();
        let d = hex_char_val(s.last());
        assert(all_hex(front));
        lemma_hex_canonical(front);
        lemma_hex_val_bound(front);
        let v0 = hex_val(front);
        let v = hex_val(s);
        assert(v == v0 * 16 + d);
        assert(d < 16);
        vstd::arithmetic::div_mod::lemma_fundamental_div_mod_converse(
            v as int,
            16,
            v0 as int,
            d as int,
        );
        assert(v / 16 == v0 && v % 16 == d);
        assert(hex_digit_char(hex_char_val(s.last())) == s.last());
        assert(hex_digits(v, s.len()) =~= s);
    }
}

/// 16^32 is exactly one more than `u128::MAX`: every id fits in 32 digits.
pub proof fn lemma_pow16_32()
    ensures
        pow16(32) == 0x100000000000000000000000000000000,
{
    reveal_with_fuel(pow16, 33);
    assert(pow16(32) == 0x100000000000000000000000000000000);
}

/// The fixed word tag a status serializes as.
pub open spec fn status_tag(st: TaskStatus) -> Seq<char> {
    match st {
        TaskStatus::Todo => seq!['t', 'o', 'd', 'o'],
        TaskStatus::InProgress => seq!['i', 'n', 'p', 'r', 'o', 'g', 'r', 'e', 's', 's'],
        TaskStatus::Done => seq!['d', 'o', 'n', 'e'],
    }
}

/// One persisted record: id, status tag, then each text field prefixed by
/// its length, space-separated and newline-terminated.
pub open spec fn ser_task(t: TaskView) -> Seq<char> {
    hex_digits(t.id as nat, 32) + seq![' '] + status_tag(t.status) + seq![' '] + hex_digits(
        t.name.len(),
        32,
    ) + seq![' '] + t.name + seq![' '] + hex_digits(t.description.len(), 32) + seq![' ']
        + t.description + seq!['\n']
}

/// The persisted text of a whole task sequence: the records in order.
pub open spec fn ser_tasks(ts: Seq<TaskView>) -> Seq<char>
    decreases ts.len(),
{
    if ts.len() == 0 {
        Seq::empty()
    } else {
        ser_task(ts[0]) + ser_tasks(ts.drop_first())
    }
}

/// A task value the store format can hold: each text field's length fits in
/// 32 hexadecimal digits (any sequence held in memory does).
pub open spec fn task_view_wf(t: TaskView) -> bool {
    &&& t.name.len() < pow16(32)
    &&& t.description.len() < pow16(32)
}

/// Every task of the sequence is storable.
pub open spec fn tasks_wf(ts: Seq<TaskView>) -> bool {
    forall|i: int| 0 <= i < ts.len() ==> task_view_wf(#[trigger] ts[i])
}

/// The number at the front of the text, when the text starts with 32
/// hexadecimal digits.
pub open spec fn parse_hex_spec(s: Seq<char>) -> Option<nat> {
    if s.len() >= 32 && all_hex(s.take(32)) {
        Some(hex_val(s.take(32)))
    } else {
        None
    }
}

/// Whether position `i` of the text exists and holds `c`.
pub open spec fn char_at_is(s: Seq<char>, i: int, c: char) -> bool {
    0 <= i < s.len() && s[i] == c
}

/// The status tag at the front of the text, with its width. The three tags
/// start with distinct characters, so at most one matches.
pub open spec fn parse_tag_spec(s: Seq<char>) -> Option<(TaskStatus, nat)> {
    if s.len() >= 4 && s.take(4) == status_tag(TaskStatus::Todo) {
        Some((TaskStatus::Todo, 4nat))
    } else if s.len() >= 10 && s.take(10) == status_tag(TaskStatus::InProgress) {
        Some((TaskStatus::InProgress, 10nat))
    } else if s.len() >= 4 && s.take(4) == status_tag(TaskStatus::Done) {
        Some((TaskStatus::Done, 4nat))
    } else {
        None
    }
}

/// The record at the front of the text, with the count of characters it
/// occupies; `None` when the text does not start with a record.
pub open spec fn parse_task_spec(s: Seq<char>) -> Option<(TaskView, nat)> {
    match parse_hex_spec(s) {
        None => None,
        Some(id) => if id > u128::MAX as nat || !char_at_is(s, 32, ' ') {
            None
        } else {
            match parse_tag_spec(s.skip(33)) {
                None => None,
                Some((st, tl)) => {
                    let p = (33 + tl) as int;
                    if !char_at_is(s, p, ' ') {
                        None
                    } else {
                        match parse_hex_spec(s.skip(p + 1)) {
                            None => None,
                            Some(nlen) => {
                                let q = p + 34;
                                if !char_at_is(s, p + 33, ' ') || s.len() < q + nlen
                                    || !char_at_is(s, q + nlen, ' ') {
                                    None
                                } else {
                                    let name = s.subrange(q, q + nlen);
                                    match parse_hex_spec(s.skip(q + nlen + 1)) {
                                        None => None,
                                        Some(dlen) => {
                                            let r = q + nlen + 34;
                                            if !char_at_is(s, q + nlen + 33, ' ') || s.len() < r
                                                + dlen || !char_at_is(
                                                s,
                                                r + dlen,
                                                '\n',
                                            ) {
                                                None
                                            } else {
                                                let description = s.subrange(r, r + dlen);
                                                Some(
                                                    (
                                                        TaskView {
                                                            id: id as u128,
                                                            name,
                                                            description,
                                                            status: st,
                                                        },
                                                        (r + dlen + 1) as nat,
                                                    ),
                                                )
                                            }
                                        },
                                    }
                                }
                            },
                        }
                    }
                },
            }
        },
    }
}

/// The task sequence a whole text holds: records parsed front to back until
/// the text is exhausted; `None` as soon as a record is malformed.
pub open spec fn parse_tasks_spec(s: Seq<char>) -> Option<Seq<TaskView>>
    decreases s.len(),
{
    if s.len() == 0 {
        Some(Seq::empty())
    } else {
        match parse_task_spec(s) {
            None => None,
            Some((t, used)) => if 1 <= used <= s.len() {
                match parse_tasks_spec(s.skip(used as int)) {
                    None => None,
                    Some(rest) => Some(seq![t] + rest),
                }
            } else {
                None
            },
        }
    }
}

/// The exact width of one record's text.
pub proof fn lemma_ser_task_len(t: TaskView)
    ensures
        ser_task(t).len() == 102 + status_tag(t.status).len() + t.name.len()
            + t.description.len(),
        status_tag(t.status).len() >= 4,
{
    lemma_hex_digits_shape(t.id as nat, 32);
    lemma_hex_digits_shape(t.name.len(), 32);
    lemma_hex_digits_shape(t.description.len(), 32);
}

/// A status tag at the front of the text parses back to its status and
/// width, whatever follows: the three tags start with distinct characters.
pub proof fn lemma_parse_tag_round(st: TaskStatus, rest: Seq<char>)
    ensures
        parse_tag_spec(status_tag(st) + rest) == Some((st, status_tag(st).len())),
{
    let s = status_tag(st) + rest;
    match st {
        TaskStatus::Todo => {
            assert(s.take(4) =~= status_tag(TaskStatus::Todo));
        },
        TaskStatus::InProgress => {
            assert(s.take(10) =~= status_tag(TaskStatus::InProgress));
            assert(s[0] == 'i');
            if s.len() >= 4 && s.take(4) == status_tag(TaskStatus::Todo) {
                assert(s.take(4)[0] == 'i');
                assert(status_tag(TaskStatus::Todo)[0] == 't');
            }
        },
        TaskStatus::Done => {
            assert(s.take(4) =~= status_tag(TaskStatus::Done));
            assert(s[0] == 'd');
            if s.len() >= 4 && s.take(4) == status_tag(TaskStatus::Todo) {
                assert(s.take(4)[0] == 'd');
                assert(status_tag(TaskStatus::Todo)[0] == 't');
            }
            if s.len() >= 10 && s.take(10) == status_tag(TaskStatus::InProgress) {
                assert(s.take(10)[0] == 'd');
                assert(status_tag(TaskStatus::InProgress)[0] == 'i');
            }
        },
    }
}

/// Whatever tag parsing accepted is the exact text it consumed.
pub proof fn lemma_parse_tag_canonical(s: Seq<char>, st: TaskStatus, tl: nat)
    requires
        parse_tag_spec(s) == Some((st, tl)),
    ensures
        tl == status_tag(st).len(),
        s.take(tl as int) == status_tag(st),
        4 <= tl <= s.len(),
{
}

/// A 32-digit number at the front of the text parses back to its value,
/// whatever follows.
pub proof fn lemma_parse_hex_round(n: nat, rest: Seq<char>)
    requires
        n < pow16(32),
    ensures
        parse_hex_spec(hex_digits(n, 32) + rest) == Some(n),
{
    let w = hex_digits(n, 32);
    lemma_hex_digits_shape(n, 32);
    let s = w + rest;
    assert(s.take(32) =~= w);
    lemma_hex_digits_val(n, 32);
}

/// Whatever number parsing accepted is the exact text it consumed, and fits
/// the width.
pub proof fn lemma_parse_hex_canonical(s: Seq<char>, v: nat)
    requires
        parse_hex_spec(s) == Some(v),
    ensures
        s.len() >= 32,
        hex_digits(v, 32) == s.take(32),
        v <= u128::MAX as nat,
{
    lemma_hex_canonical(s.take(32));
    lemma_hex_val_bound(s.take(32));
    lemma_pow16_32();
}

/// A record's text parses back to its task and width, whatever follows.
pub proof fn lemma_ser_task_round_trip(t: TaskView, rest: Seq<char>)
    requires
        task_view_wf(t),
    ensures
        parse_task_spec(ser_task(t) + rest) == Some((t, ser_task(t).len())),
{
    let w_id = hex_digits(t.id as nat, 32);
    let tag = status_tag(t.status);
    let w_n = hex_digits(t.name.len(), 32);
    let w_d = hex_digits(t.description.len(), 32);
    let tl = tag.len() as int;
    let nlen = t.name.len() as int;
    let dlen = t.description.len() as int;
    lemma_hex_digits_shape(t.id as nat, 32);
    lemma_hex_digits_shape(t.name.len(), 32);
    lemma_hex_digits_shape(t.description.len(), 32);
    lemma_ser_task_len(t);
    lemma_pow16_32();
    let s = ser_task(t) + rest;
    assert(s.len() == 102 + tl + nlen + dlen + rest.len());

    assert(s.take(32) =~= w_id);
    lemma_hex_digits_val(t.id as nat, 32);
    assert(parse_hex_spec(s) == Some(t.id as nat));
    assert(char_at_is(s, 32, ' '));

    let tail_tag = seq![' '] + w_n + seq![' '] + t.name + seq![' '] + w_d + seq![' ']
        + t.description + seq!['\n'] + rest;
    assert(s.skip(33) =~= tag + tail_tag);
    lemma_parse_tag_round(t.status, tail_tag);
    assert(parse_tag_spec(s.skip(33)) == Some((t.status, tag.len())));

    let p = 33 + tl;
    assert(char_at_is(s, p, ' '));
    let tail_nlen = seq![' '] + t.name + seq![' '] + w_d + seq![' '] + t.description + seq!['\n']
        + rest;
    assert(s.skip(p + 1) =~= w_n + tail_nlen);
    lemma_parse_hex_round(t.name.len(), tail_nlen);
    assert(parse_hex_spec(s.skip(p + 1)) == Some(t.name.len()));

    let q = p + 34;
    assert(char_at_is(s, p + 33, ' '));
    assert(s.len() >= q + nlen);
    assert(char_at_is(s, q + nlen, ' '));
    assert(s.subrange(q, q + nlen) =~= t.name);

    let tail_dlen = seq![' '] + t.description + seq!['\n'] + rest;
    assert(s.skip(q + nlen + 1) =~= w_d + tail_dlen);
    lemma_parse_hex_round(t.description.len(), tail_dlen);
    assert(parse_hex_spec(s.skip(q + nlen + 1)) == Some(t.description.len()));

    let r = q + nlen + 34;
    assert(char_at_is(s, q + nlen + 33, ' '));
    assert(s.len() >= r + dlen);
    assert(char_at_is(s, r + dlen, '\n'));
    assert(s.subrange(r, r + dlen) =~= t.description);

    let parsed = TaskView {
        id: (t.id as nat) as u128,
        name: s.subrange(q, q + nlen),
        description: s.subrange(r, r + dlen),
        status: t.status,
    };
    assert(parsed =~= t);
    assert(r + dlen + 1 == ser_task(t).len());
}

/// Whatever record parsing accepted is the exact text it consumed, and the
/// task it yields is storable.
pub proof fn lemma_parse_task_canonical(s: Seq<char>, t: TaskView, used: nat)
    requires
        parse_task_spec(s) == Some((t, used)),
    ensures
        ser_task(t) == s.take(used as int),
        task_view_wf(t),
        1 <= used <= s.len(),
{
    let id = parse_hex_spec(s).unwrap();
    lemma_parse_hex_canonical(s, id);
    let (st, tl0) = parse_tag_spec(s.skip(33)).unwrap();
    lemma_parse_tag_canonical(s.skip(33), st, tl0);
    let tl = tl0 as int;
    let p = 33 + tl;
    let nlen0 = parse_hex_spec(s.skip(p + 1)).unwrap();
    lemma_parse_hex_canonical(s.skip(p + 1), nlen0);
    let nlen = nlen0 as int;
    let q = p + 34;
    let dlen0 = parse_hex_spec(s.skip(q + nlen + 1)).unwrap();
    lemma_parse_hex_canonical(s.skip(q + nlen + 1), dlen0);
    let dlen = dlen0 as int;
    let r = q + nlen + 34;
    assert(t == TaskView {
        id: id as u128,
        name: s.subrange(q, q + nlen),
        description: s.subrange(r, r + dlen),
        status: st,
    });
    assert(used == r + dlen + 1);
    lemma_pow16_32();
    lemma_hex_val_bound(s.take(32));
    lemma_hex_val_bound(s.skip(p + 1).take(32));
    lemma_hex_val_bound(s.skip(q + nlen + 1).take(32));
    assert(t.name.len() == nlen0 && t.description.len() == dlen0);
    assert(task_view_wf(t));
    assert(t.id as nat == id);

    lemma_ser_task_len(t);
    assert(char_at_is(s, r + dlen, '\n'));
    assert(used <= s.len());

    let w_id = hex_digits(t.id as nat, 32);
    let tag = status_tag(st);
    let w_n = hex_digits(t.name.len(), 32);
    let w_d = hex_digits(t.description.len(), 32);
    assert(w_id == s.take(32));
    assert(tag =~= s.subrange(33, 33 + tl)) by {
        assert(s.skip(33).take(tl) == tag);
        assert(s.skip(33).take(tl) =~= s.subrange(33, 33 + tl));
    }
    assert(w_n =~= s.subrange(p + 1, p + 33)) by {
        assert(s.skip(p + 1).take(32) == w_n);
        assert(s.skip(p + 1).take(32) =~= s.subrange(p + 1, p + 33));
    }
    assert(w_d =~= s.subrange(q + nlen + 1, q + nlen + 33)) by {
        assert(s.skip(q + nlen + 1).take(32) == w_d);
        assert(s.skip(q + nlen + 1).take(32) =~= s.subrange(q + nlen + 1, q + nlen + 33));
    }
    assert(ser_task(t) =~= s.take(used as int));
}

/// Round trip, saving first: the persisted text of any storable task
/// sequence parses back as exactly that sequence, field for field and in
/// order.
pub proof fn lemma_store_round_trip(ts: Seq<TaskView>)
    requires
        tasks_wf(ts),
    ensures
        parse_tasks_spec(ser_tasks(ts)) == Some(ts),
    decreases ts.len(),
{
    if ts.len() == 0 {
        assert(ser_tasks(ts) =~= Seq::<char>::empty());
    } else {
        let t = ts[0];
        let dr = ts.drop_first();
        let s = ser_tasks(ts);
        lemma_ser_task_len(t);
        lemma_ser_task_round_trip(t, ser_tasks(dr));
        let used = ser_task(t).len() as int;
        assert(parse_task_spec(s) == Some((t, used as nat)));
        assert(s.skip(used) =~= ser_tasks(dr));
        assert(tasks_wf(dr)) by {
            assert(forall|i: int| 0 <= i < dr.len() ==> dr[i] == ts[i + 1]);
        }
        lemma_store_round_trip(dr);
        assert(parse_tasks_spec(s) == Some(seq![t] + dr));
        assert(seq![t] + dr =~= ts);
    }
}

/// Round trip, loading first: any text that parses as some task sequence is
/// exactly what saving that sequence writes — the store format is canonical.
#[verifier::rlimit(60)]
pub proof fn lemma_store_canonical(s: Seq<char>, ts: Seq<TaskView>)
    requires
        parse_tasks_spec(s) == Some(ts),
    ensures
        ser_tasks(ts) == s,
        tasks_wf(ts),
    decreases s.len(),
{
    if s.len() == 0 {
        assert(ser_tasks(ts) =~= s);
    } else {
        let (t, used) = parse_task_spec(s).unwrap();
        lemma_parse_task_canonical(s, t, used);
        let rest = parse_tasks_spec(s.skip(used as int)).unwrap();
        lemma_store_canonical(s.skip(used as int), rest);
        assert(ts == seq![t] + rest);
        assert(ts[0] == t);
        assert(ts.drop_first() =~= rest);
        assert(ser_tasks(ts) == ser_task(t) + ser_tasks(rest));
        assert(ser_task(t) + ser_tasks(rest) =~= s);
        assert(tasks_wf(ts)) by {
            assert(forall|i: int| 0 <= i < ts.len() ==> ts[i] == (seq![t] + rest)[i]);
        }
    }
}

/// Appending one task's record extends the persisted text by that record.
pub proof fn lemma_ser_tasks_snoc(ts: Seq<TaskView>, t: TaskView)
    ensures
        ser_tasks(ts.push(t)) == ser_tasks(ts) + ser_task(t),
    decreases ts.len(),
{
    if ts.len() == 0 {
        assert(ts.push(t)[0] == t);
        assert(ts.push(t).drop_first() =~= Seq::<TaskView>::empty());
        assert(ser_tasks(ts.push(t)) == ser_task(t) + ser_tasks(Seq::<TaskView>::empty()));
        assert(ser_tasks(ts) =~= Seq::<char>::empty());
        assert(ser_task(t) + Seq::<char>::empty() =~= ser_task(t));
        assert(Seq::<char>::empty() + ser_task(t) =~= ser_task(t));
        assert(ser_tasks(ts.push(t)) == ser_tasks(ts) + ser_task(t));
    } else {
        lemma_ser_tasks_snoc(ts.drop_first(), t);
        assert(ts.push(t)[0] == ts[0]);
        assert(ts.push(t).len() != 0);
        assert(ts.push(t).drop_first() =~= ts.drop_first().push(t));
        assert(ser_tasks(ts.push(t)) == ser_task(ts[0]) + ser_tasks(ts.drop_first().push(t)));
        assert(ser_tasks(ts) == ser_task(ts[0]) + ser_tasks(ts.drop_first()));
        assert(ser_task(ts[0]) + (ser_tasks(ts.drop_first()) + ser_task(t)) =~= (ser_task(ts[0])
            + ser_tasks(ts.drop_first())) + ser_task(t));
        assert(ser_tasks(ts.push(t)) == ser_tasks(ts) + ser_task(t));
    }
}

/// The character for one hexadecimal digit value.
fn hex_digit_char_exec(d: u128) -> (r: char)
    requires
        d < 16,
    ensures
        r == hex_digit_char(d as nat),
{
    if d == 0 {
        '0'
    } else if d == 1 {
        '1'
    } else if d == 2 {
        '2'
    } else if d == 3 {
        '3'
    } else if d == 4 {
        '4'
    } else if d == 5 {
        '5'
    } else if d == 6 {
        '6'
    } else if d == 7 {
        '7'
    } else if d == 8 {
        '8'
    } else if d == 9 {
        '9'
    } else if d == 10 {
        'a'
    } else if d == 11 {
        'b'
    } else if d == 12 {
        'c'
    } else if d == 13 {
        'd'
    } else if d == 14 {
        'e'
    } else {
        'f'
    }
}

/// Whether a character is a lower-case hexadecimal digit.
fn is_hex_digit_exec(c: char) -> (r: bool)
    ensures
        r == is_hex_digit(c),
{
    match c {
        '0' | '1' | '2' | '3' | '4' | '5' | '6' | '7' | '8' | '9' => true,
        'a' | 'b' | 'c' | 'd' | 'e' | 'f' => true,
        _ => false,
    }
}

/// The value of one hexadecimal digit character.
fn hex_char_val_exec(c: char) -> (r: u128)
    requires
        is_hex_digit(c),
    ensures
        r as nat == hex_char_val(c),
        r < 16,
{
    match c {
        '0' => 0,
        '1' => 1,
        '2' => 2,
        '3' => 3,
        '4' => 4,
        '5' => 5,
        '6' => 6,
        '7' => 7,
        '8' => 8,
        '9' => 9,
        'a' => 10,
        'b' => 11,
        'c' => 12,
        'd' => 13,
        'e' => 14,
        _ => 15,
    }
}

/// Append the `w`-digit hexadecimal rendering of `n`.
fn push_hex(out: &mut Vec<char>, n: u128, w: usize)
    ensures
        final(out)@ == old(out)@ + hex_digits(n as nat, w as nat),
    decreases w,
{
    if w == 0 {
        proof {
            assert(old(out)@ + hex_digits(n as nat, 0) =~= old(out)@);
        }
    } else {
        push_hex(out, n / 16, w - 1);
        let d = n % 16;
        out.push(hex_digit_char_exec(d));
        proof {
            assert((n as nat) / 16 == (n / 16) as nat);
            assert((n as nat) % 16 == d as nat);
            assert(out@ =~= old(out)@ + hex_digits(n as nat, w as nat));
        }
    }
}

/// Append every character of `v`.
fn push_chars(out: &mut Vec<char>, v: &Vec<char>)
    ensures
        final(out)@ == old(out)@ + v@,
{
    let mut j: usize = 0;
    while j < v.len()
        invariant
            j <= v@.len(),
            out@ == old(out)@ + v@.take(j as int),
        decreases v@.len() - j,
    {
        out.push(v[j]);
        proof {
            assert(old(out)@ + v@.take(j as int) + seq![v@[j as int]] =~= old(out)@ + v@.take(
                j as int + 1,
            ));
        }
        j += 1;
    }
    proof {
        assert(v@.take(v@.len() as int) =~= v@);
    }
}

/// Append the status word tag.
fn push_tag(out: &mut Vec<char>, st: TaskStatus)
    ensures
        final(out)@ == old(out)@ + status_tag(st),
{
    match st {
        TaskStatus::Todo => {
            out.push('t');
            out.push('o');
            out.push('d');
            out.push('o');
        },
        TaskStatus::InProgress => {
            out.push('i');
            out.push('n');
            out.push('p');
            out.push('r');
            out.push('o');
            out.push('g');
            out.push('r');
            out.push('e');
            out.push('s');
            out.push('s');
        },
        TaskStatus::Done => {
            out.push('d');
            out.push('o');
            out.push('n');
            out.push('e');
        },
    }
    proof {
        assert(out@ =~= old(out)@ + status_tag(st));
    }
}

/// Append one task's record.
fn push_task(out: &mut Vec<char>, t: &Task)
    ensures
        final(out)@ == old(out)@ + ser_task(t@),
{
    push_hex(out, t.id, 32);
    out.push(' ');
    push_tag(out, t.status);
    out.push(' ');
    push_hex(out, t.name.len() as u128, 32);
    out.push(' ');
    push_chars(out, &t.name);
    out.push(' ');
    push_hex(out, t.description.len() as u128, 32);
    out.push(' ');
    push_chars(out, &t.description);
    out.push('\n');
    proof {
        assert(out@ =~= old(out)@ + ser_task(t@));
    }
}

/// Serialize the whole task sequence to its persisted text: exactly the
/// records of the given tasks, in order.
pub fn save(tasks: &Vec<Task>) -> (out: Vec<char>)
    ensures
        out@ == ser_tasks(tasks_view(tasks@)),
{
    let mut out: Vec<char> = Vec::new();
    let mut k: usize = 0;
    proof {
        assert(tasks_view(tasks@).take(0) =~= Seq::<TaskView>::empty());
    }
    while k < tasks.len()
        invariant
            k <= tasks@.len(),
            out@ == ser_tasks(tasks_view(tasks@).take(k as int)),
        decreases tasks@.len() - k,
    {
        push_task(&mut out, &tasks[k]);
        proof {
            let tv = tasks_view(tasks@);
            assert(tv[k as int] == tasks@[k as int]@);
            assert(tv.take(k as int).push(tv[k as int]) =~= tv.take(k as int + 1));
            lemma_ser_tasks_snoc(tv.take(k as int), tv[k as int]);
        }
        k += 1;
    }
    proof {
        assert(tasks_view(tasks@).take(tasks@.len() as int) =~= tasks_view(tasks@));
    }
    out
}

/// Whether position `pos` of the text exists and holds `c`.
fn expect_char(text: &Vec<char>, pos: usize, c: char) -> (r: bool)
    ensures
        r == char_at_is(text@, pos as int, c),
{
    pos < text.len() && text[pos] == c
}

/// Read the 32-digit number at `pos`; fails on a short text or a non-digit.
fn parse_hex32(text: &Vec<char>, pos: usize) -> (r: Result<(u128, usize), Error>)
    requires
        pos <= text@.len(),
    ensures
        r matches Ok((v, end)) ==> ({
            &&& parse_hex_spec(text@.skip(pos as int)) == Some(v as nat)
            &&& end == pos + 32
            &&& end <= text@.len()
        }),
        r is Err ==> parse_hex_spec(text@.skip(pos as int)) is None && r == Err::<
            (u128, usize),
            Error,
        >(Error::Storage),
{
    if text.len() - pos < 32 {
        return Err(Error::Storage);
    }
    let mut acc: u128 = 0;
    let mut j: usize = 0;
    while j < 32
        invariant
            text@.len() <= usize::MAX,
            pos + 32 <= text@.len(),
            j <= 32,
            forall|i: int| 0 <= i < j ==> is_hex_digit(#[trigger] text@[pos + i]),
            acc as nat == hex_val(text@.subrange(pos as int, pos + j)),
            (acc as nat) < pow16(j as nat),
        decreases 32 - j,
    {
        let c = text[pos + j];
        if !is_hex_digit_exec(c) {
            proof {
                let s = text@.skip(pos as int);
                assert(s.take(32)[j as int] == c);
            }
            return Err(Error::Storage);
        }
        let d = hex_char_val_exec(c);
        proof {
            lemma_pow16_monotone(j as nat + 1, 32);
            lemma_pow16_32();
            assert(acc as nat * 16 + hex_char_val(c) < pow16(j as nat) * 16) by (nonlinear_arith)
                requires
                    (acc as nat) < pow16(j as nat),
                    hex_char_val(c) < 16,
            ;
            assert(pow16(j as nat + 1) == 16 * pow16(j as nat));
            let pre = text@.subrange(pos as int, pos + j);
            let pre1 = text@.subrange(pos as int, pos + j + 1);
            assert(pre1.drop_last() =~= pre);
            assert(pre1.last() == c);
        }
        acc = acc * 16 + d;
        j += 1;
    }
    proof {
        let s = text@.skip(pos as int);
        assert(s.take(32) =~= text@.subrange(pos as int, pos as int + 32));
        assert(forall|i: int| 0 <= i < 32 ==> s.take(32)[i] == text@[pos + i]);
        assert(all_hex(s.take(32)));
    }
    Ok((acc, pos + 32))
}

/// Read the status tag at `pos`; fails when none of the three tags is there.
fn parse_tag(text: &Vec<char>, pos: usize) -> (r: Result<(TaskStatus, usize), Error>)
    requires
        pos <= text@.len(),
    ensures
        r matches Ok((st, end)) ==> ({
            &&& parse_tag_spec(text@.skip(pos as int)) == Some((st, (end - pos) as nat))
            &&& pos < end <= text@.len()
        }),
        r is Err ==> parse_tag_spec(text@.skip(pos as int)) is None && r == Err::<
            (TaskStatus, usize),
            Error,
        >(Error::Storage),
{
    let ghost s = text@.skip(pos as int);
    let remaining = text.len() - pos;
    if remaining >= 4 && text[pos] == 't' && text[pos + 1] == 'o' && text[pos + 2] == 'd'
        && text[pos + 3] == 'o' {
        proof {
            assert(s.take(4) =~= status_tag(TaskStatus::Todo));
        }
        return Ok((TaskStatus::Todo, pos + 4));
    }
    if remaining >= 10 && text[pos] == 'i' && text[pos + 1] == 'n' && text[pos + 2] == 'p'
        && text[pos + 3] == 'r' && text[pos + 4] == 'o' && text[pos + 5] == 'g' && text[pos + 6]
        == 'r' && text[pos + 7] == 'e' && text[pos + 8] == 's' && text[pos + 9] == 's' {
        proof {
            assert(s.take(10) =~= status_tag(TaskStatus::InProgress));
            if s.len() >= 4 && s.take(4) == status_tag(TaskStatus::Todo) {
                assert(s.take(4)[0] == 'i');
                assert(status_tag(TaskStatus::Todo)[0] == 't');
            }
        }
        return Ok((TaskStatus::InProgress, pos + 10));
    }
    if remaining >= 4 && text[pos] == 'd' && text[pos + 1] == 'o' && text[pos + 2] == 'n'
        && text[pos + 3] == 'e' {
        proof {
            assert(s.take(4) =~= status_tag(TaskStatus::Done));
            if s.len() >= 4 && s.take(4) == status_tag(TaskStatus::Todo) {
                assert(s.take(4)[0] == 'd');
                assert(status_tag(TaskStatus::Todo)[0] == 't');
            }
            if s.len() >= 10 && s.take(10) == status_tag(TaskStatus::InProgress) {
                assert(s.take(10)[0] == 'd');
                assert(status_tag(TaskStatus::InProgress)[0] == 'i');
            }
        }
        return Ok((TaskStatus::Done, pos + 4));
    }
    proof {
        assert(parse_tag_spec(s) is None) by {
            if s.len() >= 4 && s.take(4) == status_tag(TaskStatus::Todo) {
                assert(forall|i: int| 0 <= i < 4 ==> s.take(4)[i] == #[trigger] s[i]);
                assert(forall|i: int| 0 <= i < 4 ==> s[i] == text@[pos + i]);
                assert(text@[pos as int] == 't' && text@[pos + 1] == 'o' && text@[pos + 2] == 'd'
                    && text@[pos + 3] == 'o');
            }
            if s.len() >= 10 && s.take(10) == status_tag(TaskStatus::InProgress) {
                assert(forall|i: int| 0 <= i < 10 ==> s.take(10)[i] == #[trigger] s[i]);
                assert(forall|i: int| 0 <= i < 10 ==> s[i] == text@[pos + i]);
                assert(text@[pos as int] == 'i' && text@[pos + 1] == 'n' && text@[pos + 2] == 'p'
                    && text@[pos + 3] == 'r' && text@[pos + 4] == 'o' && text@[pos + 5] == 'g'
                    && text@[pos + 6] == 'r' && text@[pos + 7] == 'e' && text@[pos + 8] == 's'
                    && text@[pos + 9] == 's');
            }
            if s.len() >= 4 && s.take(4) == status_tag(TaskStatus::Done) {
                assert(forall|i: int| 0 <= i < 4 ==> s.take(4)[i] == #[trigger] s[i]);
                assert(forall|i: int| 0 <= i < 4 ==> s[i] == text@[pos + i]);
                assert(text@[pos as int] == 'd' && text@[pos + 1] == 'o' && text@[pos + 2] == 'n'
                    && text@[pos + 3] == 'e');
            }
        }
    }
    Err(Error::Storage)
}

/// Copy `count` characters starting at `start`.
fn copy_range(text: &Vec<char>, start: usize, count: usize) -> (r: Vec<char>)
    requires
        start + count <= text@.len(),
    ensures
        r@ == text@.subrange(start as int, start as int + count as int),
{
    // Reading the length once records that it fits a machine word, which the
    // index arithmetic below needs.
    let _total: usize = text.len();
    let mut r: Vec<char> = Vec::new();
    proof {
        assert(r@ =~= text@.subrange(start as int, start as int));
    }
    let mut j: usize = 0;
    while j < count
        invariant
            text@.len() <= usize::MAX,
            start + count <= text@.len(),
            j <= count,
            r@ == text@.subrange(start as int, start + j),
        decreases count - j,
    {
        r.push(text[start + j]);
        proof {
            assert(text@.subrange(start as int, start + j + 1) =~= text@.subrange(
                start as int,
                start + j,
            ).push(text@[start + j]));
        }
        j += 1;
    }
    r
}

/// Read the record at `pos`; on success the task and the position just past
/// the record, exactly as the record grammar (`parse_task_spec`) says.
#[verifier::rlimit(60)]
fn parse_task(text: &Vec<char>, pos: usize) -> (r: Result<(Task, usize), Error>)
    requires
        pos <= text@.len(),
    ensures
        r matches Ok((t, end)) ==> ({
            &&& parse_task_spec(text@.skip(pos as int)) == Some((t@, (end - pos) as nat))
            &&& pos < end <= text@.len()
        }),
        r is Err ==> parse_task_spec(text@.skip(pos as int)) is None && r == Err::<
            (Task, usize),
            Error,
        >(Error::Storage),
{
    let ghost s = text@.skip(pos as int);
    // Reading the length once records that it fits a machine word, which the
    // position arithmetic below needs.
    let _total: usize = text.len();
    let (id, id_end) = match parse_hex32(text, pos) {
        Ok(v) => v,
        Err(e) => {
            return Err(e);
        },
    };
    if !expect_char(text, id_end, ' ') {
        proof {
            assert(!char_at_is(s, 32, ' '));
        }
        return Err(Error::Storage);
    }
    let tag_start = id_end + 1;
    proof {
        assert(text@.skip(tag_start as int) =~= s.skip(33));
    }
    let (st, tag_end) = match parse_tag(text, tag_start) {
        Ok(v) => v,
        Err(e) => {
            return Err(e);
        },
    };
    let ghost tl = (tag_end - tag_start) as int;
    let ghost p = 33 + tl;
    if !expect_char(text, tag_end, ' ') {
        proof {
            assert(!char_at_is(s, p, ' '));
        }
        return Err(Error::Storage);
    }
    proof {
        assert(text@.skip(tag_end as int + 1) =~= s.skip(p + 1));
    }
    let (nlen, nhex_end) = match parse_hex32(text, tag_end + 1) {
        Ok(v) => v,
        Err(e) => {
            return Err(e);
        },
    };
    if !expect_char(text, nhex_end, ' ') {
        proof {
            assert(!char_at_is(s, p + 33, ' '));
        }
        return Err(Error::Storage);
    }
    let name_start = nhex_end + 1;
    let ghost q = p + 34;
    proof {
        assert(name_start == pos + q);
        assert(s.len() == text@.len() - pos);
    }
    if nlen > (text.len() - name_start) as u128 {
        proof {
            assert(s.len() < q + nlen);
        }
        return Err(Error::Storage);
    }
    let nlen_us = nlen as usize;
    proof {
        assert(nlen_us as nat == nlen as nat);
    }
    let name_end = name_start + nlen_us;
    if !expect_char(text, name_end, ' ') {
        proof {
            assert(!char_at_is(s, q + nlen, ' '));
        }
        return Err(Error::Storage);
    }
    let name = copy_range(text, name_start, nlen_us);
    proof {
        assert(name@ =~= s.subrange(q, q + nlen));
    }
    proof {
        assert(text@.skip(name_end as int + 1) =~= s.skip(q + nlen + 1));
    }
    let (dlen, dhex_end) = match parse_hex32(text, name_end + 1) {
        Ok(v) => v,
        Err(e) => {
            return Err(e);
        },
    };
    if !expect_char(text, dhex_end, ' ') {
        proof {
            assert(!char_at_is(s, q + nlen + 33, ' '));
        }
        return Err(Error::Storage);
    }
    let desc_start = dhex_end + 1;
    let ghost rr = q + nlen + 34;
    proof {
        assert(desc_start == pos + rr);
    }
    if dlen > (text.len() - desc_start) as u128 {
        proof {
            assert(s.len() < rr + dlen);
        }
        return Err(Error::Storage);
    }
    let dlen_us = dlen as usize;
    proof {
        assert(dlen_us as nat == dlen as nat);
    }
    let desc_end = desc_start + dlen_us;
    if !expect_char(text, desc_end, '\n') {
        proof {
            assert(!char_at_is(s, rr + dlen, '\n'));
        }
        return Err(Error::Storage);
    }
    let description = copy_range(text, desc_start, dlen_us);
    proof {
        assert(description@ =~= s.subrange(rr, rr + dlen));
    }
    let end = desc_end + 1;
    let t = Task { id, name, description, status: st };
    proof {
        assert(char_at_is(s, 32, ' '));
        assert(char_at_is(s, p, ' '));
        assert(char_at_is(s, p + 33, ' '));
        assert(char_at_is(s, q + nlen, ' '));
        assert(char_at_is(s, q + nlen + 33, ' '));
        assert(char_at_is(s, rr + dlen, '\n'));
        assert(parse_task_spec(s) == Some((t@, (end - pos) as nat)));
    }
    Ok((t, end))
}

/// Parse a whole persisted text back into its task sequence. Succeeds with
/// exactly the sequence the text holds — in which case the text is exactly
/// what `save` writes for that sequence — and fails with `Storage` on any
/// text that no task sequence serializes to.
pub fn load(text: &Vec<char>) -> (r: Result<Vec<Task>, Error>)
    ensures
        r matches Ok(ts) ==> ({
            &&& parse_tasks_spec(text@) == Some(tasks_view(ts@))
            &&& text@ == ser_tasks(tasks_view(ts@))
        }),
        r is Err ==> parse_tasks_spec(text@) is None && r == Err::<Vec<Task>, Error>(
            Error::Storage,
        ),
{
    let mut tasks: Vec<Task> = Vec::new();
    let mut pos: usize = 0;
    proof {
        assert(text@.skip(0) =~= text@);
        assert(tasks_view(tasks@) =~= Seq::<TaskView>::empty());
    }
    while pos < text.len()
        invariant
            pos <= text@.len(),
            (parse_tasks_spec(text@.skip(pos as int)) matches Some(rest) ==> parse_tasks_spec(
                text@,
            ) == Some(tasks_view(tasks@) + rest)),
            (parse_tasks_spec(text@.skip(pos as int)) is None ==> parse_tasks_spec(
                text@,
            ) is None),
        decreases text@.len() - pos,
    {
        match parse_task(text, pos) {
            Err(e) => {
                proof {
                    assert(text@.skip(pos as int).len() > 0);
                }
                return Err(Error::Storage);
            },
            Ok((t, end)) => {
                proof {
                    let sp = text@.skip(pos as int);
                    let used = (end - pos) as int;
                    assert(sp.skip(used) =~= text@.skip(end as int));
                    assert(sp.len() > 0);
                    if parse_tasks_spec(text@.skip(end as int)) is Some {
                        let rest2 = parse_tasks_spec(text@.skip(end as int)).unwrap();
                        assert(parse_tasks_spec(sp) == Some(seq![t@] + rest2));
                        assert(tasks_view(tasks@.push(t)) =~= tasks_view(tasks@).push(t@));
                        assert(tasks_view(tasks@) + (seq![t@] + rest2) =~= tasks_view(
                            tasks@,
                        ).push(t@) + rest2);
                    }
                }
                tasks.push(t);
                pos = end;
            },
        }
    }
    proof {
        assert(text@.skip(pos as int) =~= Seq::<char>::empty());
        assert(tasks_view(tasks@) + Seq::<TaskView>::empty() =~= tasks_view(tasks@));
        lemma_store_canonical(text@, tasks_view(tasks@));
    }
    Ok(tasks)
}

/// Decide initialization at a storage location. Over an existing store it
/// always fails with `AlreadyInitialized` and yields nothing to write, so
/// the existing store is never touched; otherwise it yields the persisted
/// text of the empty task sequence for the caller to write.
pub fn initialize(store_exists: bool) -> (r: Result<Vec<char>, Error>)
    ensures
        store_exists ==> r == Err::<Vec<char>, Error>(Error::AlreadyInitialized),
        !store_exists ==> (r matches Ok(c) && c@ == ser_tasks(Seq::<TaskView>::empty())),
{
    if store_exists {
        Err(Error::AlreadyInitialized)
    } else {
        let empty: Vec<char> = Vec::new();
        proof {
            assert(empty@ =~= ser_tasks(Seq::<TaskView>::empty()));
        }
        Ok(empty)
    }
}

} // verus!
