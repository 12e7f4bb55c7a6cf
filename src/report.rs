//! Boot-keyboard HID reports and the decision of when to write one.
use vstd::prelude::*;

verus! {

/// Bytes in a boot-keyboard input report.
pub const REPORT_LEN: usize = 8;

/// Non-modifier keycode slots in a boot-keyboard input report.
pub const KEY_SLOTS: usize = 6;

/// First modifier keycode (left control).
pub const FIRST_MODIFIER: u8 = 0xE0;

/// Last modifier keycode (right GUI).
pub const LAST_MODIFIER: u8 = 0xE7;

/// The eight modifier keycodes map onto the bits of the first report byte.
pub open spec fn is_modifier(kc: u8) -> bool {
    FIRST_MODIFIER <= kc && kc <= LAST_MODIFIER
}

/// Keycode 0 stands for "no key".
pub open spec fn is_plain_key(kc: u8) -> bool {
    kc != 0 && !is_modifier(kc)
}

pub open spec fn modifier_bit(kc: u8) -> u8 {
    if is_modifier(kc) {
        (1u8 << ((kc - FIRST_MODIFIER) as u8)) as u8
    } else {
        0
    }
}

/// The modifier byte: one bit set for each modifier keycode present.
pub open spec fn modifier_byte(codes: Seq<u8>) -> u8
    decreases codes.len(),
{
    if codes.len() == 0 {
        0
    } else {
        (modifier_byte(codes.drop_last()) | modifier_bit(codes.last())) as u8
    }
}

/// The non-modifier keycodes, in the order they were resolved.
pub open spec fn plain_keys(codes: Seq<u8>) -> Seq<u8>
    decreases codes.len(),
{
    if codes.len() == 0 {
        Seq::empty()
    } else if is_plain_key(codes.last()) {
        plain_keys(codes.drop_last()).push(codes.last())
    } else {
        plain_keys(codes.drop_last())
    }
}

/// Key slot `i` holds the `i`-th plain key, or 0 when there are fewer keys.
pub open spec fn slot(codes: Seq<u8>, i: int) -> u8 {
    if i < plain_keys(codes).len() {
        plain_keys(codes)[i]
    } else {
        0
    }
}

/// The report for a resolved keycode sequence: the modifier byte, a reserved
/// zero byte, then the first six plain keys; later ones are dropped.
pub open spec fn report_of(codes: Seq<u8>) -> Seq<u8> {
    seq![
        modifier_byte(codes),
        0u8,
        slot(codes, 0),
        slot(codes, 1),
        slot(codes, 2),
        slot(codes, 3),
        slot(codes, 4),
        slot(codes, 5),
    ]
}

pub open spec fn occupied(b: u8) -> nat {
    if b != 0 { 1 } else { 0 }
}

/// Number of non-empty key slots of a report.
pub open spec fn keys_in_report(r: Seq<u8>) -> nat {
    occupied(r[2]) + occupied(r[3]) + occupied(r[4]) + occupied(r[5]) + occupied(r[6]) + occupied(r[7])
}

/// Whether `kc` is a modifier keycode.
pub fn is_modifier_code(kc: u8) -> (r: bool)
    ensures
        r == is_modifier(kc),
{
    FIRST_MODIFIER <= kc && kc <= LAST_MODIFIER
}

/// The bit that a modifier keycode sets in the modifier byte; 0 for others.
pub fn modifier_bit_of(kc: u8) -> (r: u8)
    ensures
        r == modifier_bit(kc),
{
    if is_modifier_code(kc) {
        1u8 << (kc - FIRST_MODIFIER)
    } else {
        0
    }
}

proof fn lemma_plain_keys_grow(codes: Seq<u8>, i: int)
    requires
        0 <= i < codes.len(),
    ensures
        plain_keys(codes.take(i + 1)) == if is_plain_key(codes[i]) {
            plain_keys(codes.take(i)).push(codes[i])
        } else {
            plain_keys(codes.take(i))
        },
        modifier_byte(codes.take(i + 1)) == (modifier_byte(codes.take(i)) | modifier_bit(
            codes[i],
        )) as u8,
{
    assert(codes.take(i + 1).drop_last() =~= codes.take(i));
}

/// Builds the boot-keyboard report for a resolved keycode sequence.
pub fn build_report(codes: &Vec<u8>) -> (r: Vec<u8>)
    ensures
        r@ == report_of(codes@),
{
    let mut mods: u8 = 0;
    let mut keys: Vec<u8> = Vec::new();
    let n = codes.len();
    let mut i: usize = 0;
    while i < n
        invariant
            n == codes@.len(),
            0 <= i <= n,
            mods == modifier_byte(codes@.take(i as int)),
            keys.len() <= KEY_SLOTS,
            keys.len() == if plain_keys(codes@.take(i as int)).len() < KEY_SLOTS {
                plain_keys(codes@.take(i as int)).len()
            } else {
                KEY_SLOTS as nat
            },
            forall|j: int| 0 <= j < keys.len() ==> keys@[j] == plain_keys(codes@.take(i as int))[j],
        decreases n - i,
    {
        let kc = codes[i];
        proof {
            lemma_plain_keys_grow(codes@, i as int);
        }
        mods = mods | modifier_bit_of(kc);
        if kc != 0 && !is_modifier_code(kc) {
            if keys.len() < KEY_SLOTS {
                keys.push(kc);
            }
        }
        i = i + 1;
    }
    assert(codes@.take(n as int) =~= codes@);
    let mut r: Vec<u8> = Vec::new();
    r.push(mods);
    r.push(0);
    let mut j: usize = 0;
    while j < KEY_SLOTS
        invariant
            0 <= j <= KEY_SLOTS,
            r@.len() == 2 + j,
            r@[0] == modifier_byte(codes@),
            r@[1] == 0,
            keys.len() <= KEY_SLOTS,
            keys.len() == if plain_keys(codes@).len() < KEY_SLOTS {
                plain_keys(codes@).len()
            } else {
                KEY_SLOTS as nat
            },
            forall|k: int| 0 <= k < keys.len() ==> keys@[k] == plain_keys(codes@)[k],
            forall|k: int| 0 <= k < j ==> r@[2 + k] == slot(codes@, k),
        decreases KEY_SLOTS - j,
    {
        if j < keys.len() {
            r.push(keys[j]);
        } else {
            r.push(0);
        }
        j = j + 1;
    }
    assert(r@ =~= report_of(codes@));
    r
}

proof fn lemma_plain_keys_nonzero(codes: Seq<u8>)
    ensures
        plain_keys(codes).len() <= codes.len(),
        forall|i: int| 0 <= i < plain_keys(codes).len() ==> is_plain_key(#[trigger] plain_keys(codes)[i]),
    decreases codes.len(),
{
    if codes.len() > 0 {
        lemma_plain_keys_nonzero(codes.drop_last());
    }
}

/// However many keys are resolved, a report carries at most six of them: the
/// first six plain keys, in order.
pub proof fn lemma_report_cap(codes: Seq<u8>)
    ensures
        report_of(codes).len() == REPORT_LEN,
        keys_in_report(report_of(codes)) <= KEY_SLOTS,
        keys_in_report(report_of(codes)) == if plain_keys(codes).len() < KEY_SLOTS {
            plain_keys(codes).len()
        } else {
            KEY_SLOTS as nat
        },
        forall|i: int| 0 <= i < KEY_SLOTS && i < plain_keys(codes).len() ==> report_of(codes)[2 + i] == plain_keys(codes)[i],
{
    lemma_plain_keys_nonzero(codes);
    let k = plain_keys(codes);
    assert forall|i: int| 0 <= i < KEY_SLOTS && i < k.len() implies k[i] != 0 by {
        assert(is_plain_key(k[i]));
    }
}

/// Whether keycode `i` of `codes` shows in the report: every modifier does,
/// and a plain key does when fewer than six plain keys come before it.
pub open spec fn shown(codes: Seq<u8>, i: int) -> bool {
    is_modifier(codes[i]) || (is_plain_key(codes[i]) && plain_keys(codes.take(i)).len() < KEY_SLOTS)
}

/// For each keycode, whether the report shows it.
pub fn shown_mask(codes: &Vec<u8>) -> (r: Vec<bool>)
    ensures
        r@.len() == codes@.len(),
        forall|i: int| 0 <= i < codes@.len() ==> r@[i] == shown(codes@, i),
{
    let mut r: Vec<bool> = Vec::new();
    let mut plain: usize = 0;
    let n = codes.len();
    let mut i: usize = 0;
    while i < n
        invariant
            n == codes@.len(),
            0 <= i <= n,
            r@.len() == i,
            plain <= KEY_SLOTS,
            plain == if plain_keys(codes@.take(i as int)).len() < KEY_SLOTS {
                plain_keys(codes@.take(i as int)).len()
            } else {
                KEY_SLOTS as nat
            },
            forall|j: int| 0 <= j < i ==> r@[j] == shown(codes@, j),
        decreases n - i,
    {
        let kc = codes[i];
        proof {
            lemma_plain_keys_grow(codes@, i as int);
        }
        if is_modifier_code(kc) {
            r.push(true);
        } else if kc != 0 {
            r.push(plain < KEY_SLOTS);
            if plain < KEY_SLOTS {
                plain = plain + 1;
            }
        } else {
            r.push(false);
        }
        i = i + 1;
    }
    r
}

/// Whether sending `codes` writes a report, given the last report that was
/// physically transmitted: only when the new report differs from it.
pub open spec fn writes(last: Seq<u8>, codes: Seq<u8>) -> bool {
    last != report_of(codes)
}

/// The last transmitted report after a send of `codes`: the new report when
/// a write was attempted and succeeded, else the old one.
pub open spec fn after_send(last: Seq<u8>, codes: Seq<u8>, write_ok: bool) -> Seq<u8> {
    if writes(last, codes) && write_ok {
        report_of(codes)
    } else {
        last
    }
}

/// Sending the same resolved keycodes twice in a row, where a write that was
/// attempted succeeded, writes once at most: the second send never writes.
/// After a failed write the next send of the same keycodes writes again.
pub proof fn lemma_send_idempotent(last: Seq<u8>, codes: Seq<u8>)
    ensures
        !writes(after_send(last, codes, true), codes),
        (if writes(last, codes) { 1int } else { 0int }) + (if writes(
            after_send(last, codes, true),
            codes,
        ) {
            1int
        } else {
            0int
        }) <= 1,
        writes(last, codes) ==> writes(after_send(last, codes, false), codes),
{
}

/// Whether two byte sequences are equal.
pub fn same_bytes(a: &Vec<u8>, b: &Vec<u8>) -> (r: bool)
    ensures
        r == (a@ == b@),
{
    if a.len() != b.len() {
        return false;
    }
    let mut i: usize = 0;
    while i < a.len()
        invariant
            a@.len() == b@.len(),
            0 <= i <= a@.len(),
            forall|j: int| 0 <= j < i ==> a@[j] == b@[j],
        decreases a@.len() - i,
    {
        if a[i] != b[i] {
            return false;
        }
        i = i + 1;
    }
    assert(a@ =~= b@);
    true
}

/// The report side of the tick path: it remembers the last report that was
/// physically transmitted, so that an unchanged report is not written again.
pub struct HidPipeline {
    last: Vec<u8>,
}

impl View for HidPipeline {
    type V = Seq<u8>;

    /// The last report that was physically transmitted.
    closed spec fn view(&self) -> Seq<u8> {
        self.last@
    }
}

impl HidPipeline {
    /// A pipeline that has sent nothing: the class starts with an empty report.
    pub fn new() -> (p: HidPipeline)
        ensures
            p@ == seq![0u8; 8],
    {
        let mut last: Vec<u8> = Vec::new();
        let mut i: usize = 0;
        while i < REPORT_LEN
            invariant
                0 <= i <= REPORT_LEN,
                last@.len() == i,
                forall|j: int| 0 <= j < i ==> last@[j] == 0u8,
            decreases REPORT_LEN - i,
        {
            last.push(0);
            i = i + 1;
        }
        assert(last@ =~= seq![0u8; 8]);
        HidPipeline { last }
    }

    /// The last report that was physically transmitted.
    pub fn last_report(&self) -> (r: &Vec<u8>)
        ensures
            r@ == self@,
    {
        &self.last
    }

    /// Builds the report for `codes` and returns it when it differs from the
    /// last transmitted one, to be written to the endpoint; an unchanged
    /// report gives `None` and nothing is written. Nothing is recorded until
    /// the write is reported by `sent`.
    pub fn send(&self, codes: &Vec<u8>) -> (r: Option<Vec<u8>>)
        ensures
            r.is_some() == writes(self@, codes@),
            r matches Some(w) ==> w@ == report_of(codes@),
    {
        let report = build_report(codes);
        if same_bytes(&report, &self.last) {
            None
        } else {
            Some(report)
        }
    }

    /// Records a report that was written to the endpoint successfully.
    pub fn sent(&mut self, report: &Vec<u8>)
        ensures
            final(self)@ == report@,
    {
        self.last = report.clone();
    }
}

/// Whether a write to the endpoint must be tried again: only when it
/// succeeded with zero bytes accepted (the endpoint is busy). `None` stands
/// for a failed write, which is not retried.
pub fn retry_write(accepted: Option<usize>) -> (r: bool)
    ensures
        r == (accepted == Some(0usize)),
{
    match accepted {
        Some(n) => n == 0,
        None => false,
    }
}

} // verus!
