//! Sliding replay window keyed on the Noise nonce.

use vstd::prelude::*;

verus! {

/// Nonces that one word of the bitmap covers.
pub const WORD_BITS: u64 = 64;

/// What a replay window remembers: the highest nonce so far, how far back it
/// looks, and which nonces in that range were recorded.
#[verifier::ext_equal]
pub struct WindowView {
    pub highest: nat,
    pub width: nat,
    pub seen: Set<nat>,
}

impl WindowView {
    /// `n` is neither newer than every nonce so far nor too old to be judged.
    pub open spec fn covers(self, n: nat) -> bool {
        n <= self.highest && self.highest - n < self.width
    }

    /// The window remembers only nonces that it covers.
    pub open spec fn wf(self) -> bool {
        self.width > 0 && forall|n: nat| #[trigger] self.seen.contains(n) ==> self.covers(n)
    }

    /// `n` may be accepted: it is newer than every nonce so far, or it is in
    /// range and was not recorded.
    pub open spec fn fresh(self, n: nat) -> bool {
        n > self.highest || (self.covers(n) && !self.seen.contains(n))
    }

    /// The window after `n` was recorded.
    pub open spec fn record(self, n: nat) -> WindowView {
        let highest = if n > self.highest { n } else { self.highest };
        WindowView {
            highest,
            width: self.width,
            seen: Set::new(|m: nat| (m == n || self.seen.contains(m)) && m <= highest && highest - m < self.width),
        }
    }

    /// The window after one nonce was offered.
    pub open spec fn offer(self, n: nat) -> WindowView {
        if self.fresh(n) {
            self.record(n)
        } else {
            self
        }
    }

    /// The window that has recorded nothing.
    pub open spec fn empty(width: nat) -> WindowView {
        WindowView { highest: 0, width, seen: Set::empty() }
    }
}

/// Bit `k` of a word.
spec fn word_bit(word: u64, k: u64) -> bool {
    (word >> k) & 1 == 1
}

/// Bit `k` of a bitmap, counted from the lowest bit of the first word.
spec fn bitmap_bit(bitmap: Seq<u64>, k: int) -> bool {
    word_bit(bitmap[k / 64], (k % 64) as u64)
}

proof fn lemma_set_bit(word: u64, j: u64, k: u64)
    requires
        j < 64,
        k < 64,
    ensures
        word_bit(word | (1u64 << j), k) == (k == j || word_bit(word, k)),
{
    assert(((word | (1u64 << j)) >> k) & 1 == 1 <==> (k == j || (word >> k) & 1 == 1)) by (bit_vector)
        requires
            j < 64,
            k < 64,
    ;
}

proof fn lemma_test_bit(word: u64, k: u64)
    requires
        k < 64,
    ensures
        (word & (1u64 << k) != 0) == word_bit(word, k),
{
    assert((word & (1u64 << k) != 0) <==> ((word >> k) & 1 == 1)) by (bit_vector)
        requires
            k < 64,
    ;
}

proof fn lemma_zero_word(k: u64)
    ensures
        !word_bit(0, k),
{
    assert((0u64 >> k) & 1 == 0) by (bit_vector);
}

/// Bits of two neighbouring words that are shifted up together.
proof fn lemma_shift_words(hi: u64, lo: u64, s: u64, k: u64)
    requires
        0 < s < 64,
        k < 64,
    ensures
        word_bit((hi << s) | (lo >> (64 - s) as u64), k) == if k >= s {
            word_bit(hi, (k - s) as u64)
        } else {
            word_bit(lo, (k + 64 - s) as u64)
        },
{
    let t = (64 - s) as u64;
    if k >= s {
        let d = (k - s) as u64;
        assert(((((hi << s) | (lo >> t)) >> k) & 1) == ((hi >> d) & 1)) by (bit_vector)
            requires
                0 < s < 64,
                k < 64,
                k >= s,
                t == 64 - s,
                d == k - s,
        ;
    } else {
        let d = (k + 64 - s) as u64;
        assert(((((hi << s) | (lo >> t)) >> k) & 1) == ((lo >> d) & 1)) by (bit_vector)
            requires
                0 < s < 64,
                k < s,
                t == 64 - s,
                d == k + 64 - s,
        ;
    }
}

/// `bitmap` moved up by `shift` bits; bits that leave the top are lost and
/// zeros come in at the bottom.
fn shift_up(bitmap: &Vec<u64>, shift: u64) -> (out: Vec<u64>)
    requires
        shift < bitmap@.len() * 64,
        bitmap@.len() * 64 <= u64::MAX,
    ensures
        out@.len() == bitmap@.len(),
        forall|k: int|
            0 <= k < bitmap@.len() * 64 ==> #[trigger] bitmap_bit(out@, k) == (k >= shift
                && bitmap_bit(bitmap@, k - shift)),
{
    let words: usize = (shift / 64) as usize;
    let bits: u64 = shift % 64;
    let mut out: Vec<u64> = Vec::new();
    let n: usize = bitmap.len();
    let mut w: usize = 0;
    while w < n
        invariant
            w <= n,
            n == bitmap@.len(),
            n * 64 <= u64::MAX,
            words == shift / 64,
            bits == shift % 64,
            shift < n * 64,
            out@.len() == w,
            forall|k: int|
                0 <= k < w * 64 ==> #[trigger] bitmap_bit(out@, k) == (k >= shift && bitmap_bit(
                    bitmap@,
                    k - shift,
                )),
        decreases n - w,
    {
        let hi: u64 = if w >= words {
            bitmap[w - words]
        } else {
            0
        };
        let lo: u64 = if w > words {
            bitmap[w - words - 1]
        } else {
            0
        };
        let word: u64 = if bits == 0 {
            hi
        } else {
            (hi << bits) | (lo >> (64 - bits))
        };
        let ghost before = out@;
        out.push(word);
        proof {
            assert forall|k: int| 0 <= k < (w + 1) * 64 implies #[trigger] bitmap_bit(out@, k) == (k >= shift
                && bitmap_bit(bitmap@, k - shift)) by {
                if k < w * 64 {
                    assert(bitmap_bit(before, k) == bitmap_bit(out@, k));
                } else {
                    let j = (k - w * 64) as u64;
                    assert(k / 64 == w && k % 64 == j);
                    lemma_zero_word(j);
                    if bits == 0 {
                        if w >= words {
                            assert((k - shift) / 64 == w - words && (k - shift) % 64 == j);
                        }
                    } else {
                        lemma_shift_words(hi, lo, bits, j);
                        if j >= bits {
                            lemma_zero_word((j - bits) as u64);
                            if w >= words {
                                assert((k - shift) / 64 == w - words && (k - shift) % 64 == j - bits);
                            }
                        } else {
                            lemma_zero_word((j + 64 - bits) as u64);
                            if w > words {
                                assert((k - shift) / 64 == w - words - 1 && (k - shift) % 64 == j + 64 - bits);
                            }
                        }
                    }
                }
            }
        }
        w = w + 1;
    }
    out
}

/// Sliding replay window keyed on the Noise nonce.
#[derive(Debug)]
pub struct ReplayWindow {
    highest: u64,
    bitmap: Vec<u64>,
}

impl View for ReplayWindow {
    type V = WindowView;

    closed spec fn view(&self) -> WindowView {
        WindowView {
            highest: self.highest as nat,
            width: (self.bitmap@.len() * 64) as nat,
            seen: Set::new(
                |n: nat|
                    n <= self.highest && self.highest - n < self.bitmap@.len() * 64 && bitmap_bit(
                        self.bitmap@,
                        self.highest - n,
                    ),
            ),
        }
    }
}

impl ReplayWindow {
    #[verifier::type_invariant]
    spec fn inv(self) -> bool {
        0 < self.bitmap@.len() && self.bitmap@.len() * 64 <= u64::MAX
    }

    /// An empty window over `words` words of 64 nonces each (one word at least).
    pub fn with_words(words: u16) -> (w: Self)
        ensures
            w@ == WindowView::empty(64 * if words == 0 { 1 } else { words as nat }),
    {
        let words: usize = if words == 0 { 1 } else { words as usize };
        let mut bitmap: Vec<u64> = Vec::new();
        let mut i: usize = 0;
        while i < words
            invariant
                i <= words,
                bitmap@.len() == i,
                forall|j: int| 0 <= j < i ==> bitmap@[j] == 0,
            decreases words - i,
        {
            bitmap.push(0);
            i = i + 1;
        }
        let w = ReplayWindow { highest: 0, bitmap };
        proof {
            assert forall|n: nat| !w@.seen.contains(n) by {
                if n == 0 {
                    lemma_zero_word(0);
                }
            }
            assert(w@ =~= WindowView::empty((64 * words) as nat));
        }
        w
    }

    /// Returns true if `nonce` is fresh and records it.
    pub fn check_and_update(&mut self, nonce: u64) -> (fresh: bool)
        ensures
            fresh == old(self)@.fresh(nonce as nat),
            final(self)@ == old(self)@.offer(nonce as nat),
            old(self)@.wf(),
            final(self)@.wf(),
    {
        proof {
            use_type_invariant(&*self);
        }
        let width: u64 = self.bitmap.len() as u64 * WORD_BITS;
        if nonce > self.highest {
            let shift: u64 = nonce - self.highest;
            let base: Vec<u64> = if shift >= width {
                zeroed(self.bitmap.len())
            } else {
                shift_up(&self.bitmap, shift)
            };
            let first: u64 = base[0];
            let ghost blank = base@;
            let mut next: Vec<u64> = base;
            next[0] = first | 1;
            proof {
                assert(1u64 << 0u64 == 1u64) by (bit_vector);
                lemma_bit_put(blank, next@, 0, 0);
            }
            let ghost before = *self;
            self.bitmap = next;
            self.highest = nonce;
            proof {
                assert forall|m: nat| self@.seen.contains(m) == before@.record(nonce as nat).seen.contains(m) by {
                    if m <= nonce && nonce - m < width {
                        assert(bitmap_bit(next@, nonce - m) == (m == nonce || bitmap_bit(blank, nonce - m)));
                    }
                }
                assert(self@ =~= before@.record(nonce as nat));
            }
            return true;
        }
        let offset: u64 = self.highest - nonce;
        if offset >= width {
            return false;
        }
        let w: usize = (offset / WORD_BITS) as usize;
        let k: u64 = offset % WORD_BITS;
        let bit: u64 = 1u64 << k;
        proof {
            lemma_test_bit(self.bitmap@[w as int], k);
        }
        if self.bitmap[w] & bit != 0 {
            return false;
        }
        let ghost before = *self;
        let word: u64 = self.bitmap[w] | bit;
        self.bitmap[w] = word;
        proof {
            lemma_bit_put(before.bitmap@, self.bitmap@, w as int, k);
            assert forall|m: nat| self@.seen.contains(m) == before@.record(nonce as nat).seen.contains(m) by {
                if m <= self.highest && self.highest - m < width {
                    assert(bitmap_bit(self.bitmap@, self.highest - m) == (self.highest - m == offset
                        || bitmap_bit(before.bitmap@, self.highest - m)));
                }
            }
            assert(self@ =~= before@.record(nonce as nat));
        }
        true
    }
}

impl Default for ReplayWindow {
    /// An empty window over 64 nonces.
    fn default() -> (w: Self)
        ensures
            w@ == WindowView::empty(64),
    {
        ReplayWindow::with_words(1)
    }
}

/// The window after `nonces` were offered in turn.
pub open spec fn offer_all(window: WindowView, nonces: Seq<nat>) -> WindowView
    decreases nonces.len(),
{
    if nonces.len() == 0 {
        window
    } else {
        offer_all(window, nonces.drop_last()).offer(nonces.last())
    }
}

/// Whether the `i`-th of `nonces`, offered in turn, is accepted.
pub open spec fn accepted(window: WindowView, nonces: Seq<nat>, i: int) -> bool {
    offer_all(window, nonces.take(i)).fresh(nonces[i])
}

/// A nonce that was recorded is refused from then on, whatever is offered in
/// between.
pub proof fn law_recorded_stays_refused(window: WindowView, n: nat, between: Seq<nat>)
    requires
        window.wf(),
    ensures
        !offer_all(window.record(n), between).fresh(n),
        offer_all(window.record(n), between).wf(),
        offer_all(window.record(n), between).highest >= n,
    decreases between.len(),
{
    if between.len() > 0 {
        law_recorded_stays_refused(window, n, between.drop_last());
    }
}

/// No nonce is accepted twice.
pub proof fn law_no_nonce_accepted_twice(window: WindowView, nonces: Seq<nat>, i: int, j: int)
    requires
        window.wf(),
        0 <= i < j < nonces.len(),
        nonces[i] == nonces[j],
        accepted(window, nonces, i),
    ensures
        !accepted(window, nonces, j),
{
    let n = nonces[i];
    lemma_offer_all_wf(window, nonces.take(i));
    let at = offer_all(window, nonces.take(i));
    let between = nonces.subrange(i + 1, j);
    law_recorded_stays_refused(at, n, between);
    assert(nonces.take(i + 1).drop_last() =~= nonces.take(i));
    assert(offer_all(window, nonces.take(i + 1)) == at.record(n));
    lemma_offer_all_concat(window, nonces.take(i + 1), between);
    assert(nonces.take(i + 1) + between =~= nonces.take(j));
}

/// Reordering is harmless: nonces that are all different, each less than one
/// window behind every nonce offered before it, are all accepted.
pub proof fn law_reordered_nonces_accepted(width: nat, nonces: Seq<nat>, i: int)
    requires
        width > 0,
        0 <= i < nonces.len(),
        forall|a: int, b: int| 0 <= a < b < nonces.len() ==> nonces[a] != nonces[b],
        forall|a: int, b: int| 0 <= a < b < nonces.len() ==> nonces[a] - nonces[b] < width,
    ensures
        accepted(WindowView::empty(width), nonces, i),
{
    lemma_window_holds_offered(width, nonces.take(i));
    let at = offer_all(WindowView::empty(width), nonces.take(i));
    if at.highest != 0 {
        let a = choose|a: int| 0 <= a < nonces.take(i).len() && nonces.take(i)[a] == at.highest;
        assert(nonces[a] == at.highest);
    }
    if at.seen.contains(nonces[i]) {
        let a = choose|a: int| 0 <= a < nonces.take(i).len() && nonces.take(i)[a] == nonces[i];
        assert(nonces[a] == nonces[i]);
    }
}

/// Nonces that only grow are all accepted.
pub proof fn law_increasing_nonces_accepted(window: WindowView, nonces: Seq<nat>, i: int)
    requires
        window.wf(),
        0 <= i < nonces.len(),
        forall|a: int| 0 <= a < nonces.len() ==> #[trigger] nonces[a] > window.highest,
        forall|a: int, b: int| 0 <= a < b < nonces.len() ==> nonces[a] < nonces[b],
    ensures
        accepted(window, nonces, i),
{
    lemma_highest_of_increasing(window, nonces.take(i));
}

proof fn lemma_highest_of_increasing(window: WindowView, nonces: Seq<nat>)
    requires
        forall|a: int| 0 <= a < nonces.len() ==> #[trigger] nonces[a] > window.highest,
        forall|a: int, b: int| 0 <= a < b < nonces.len() ==> nonces[a] < nonces[b],
    ensures
        offer_all(window, nonces).highest == if nonces.len() == 0 {
            window.highest
        } else {
            nonces.last()
        },
    decreases nonces.len(),
{
    if nonces.len() > 0 {
        lemma_highest_of_increasing(window, nonces.drop_last());
    }
}

proof fn lemma_window_holds_offered(width: nat, nonces: Seq<nat>)
    ensures
        ({
            let at = offer_all(WindowView::empty(width), nonces);
            &&& at.width == width
            &&& at.highest == 0 || exists|a: int| 0 <= a < nonces.len() && nonces[a] == at.highest
            &&& forall|n: nat| #[trigger]
                at.seen.contains(n) ==> exists|a: int| 0 <= a < nonces.len() && nonces[a] == n
        }),
    decreases nonces.len(),
{
    if nonces.len() > 0 {
        let front = nonces.drop_last();
        lemma_window_holds_offered(width, front);
        let before = offer_all(WindowView::empty(width), front);
        let at = offer_all(WindowView::empty(width), nonces);
        assert(nonces[nonces.len() - 1] == nonces.last());
        if at.highest != 0 && at.highest == before.highest {
            let a = choose|a: int| 0 <= a < front.len() && front[a] == before.highest;
            assert(nonces[a] == at.highest);
        }
        assert forall|n: nat| #[trigger] at.seen.contains(n) implies exists|a: int|
            0 <= a < nonces.len() && nonces[a] == n by {
            if n != nonces.last() {
                assert(before.seen.contains(n));
                let a = choose|a: int| 0 <= a < front.len() && front[a] == n;
                assert(nonces[a] == n);
            }
        }
    }
}

proof fn lemma_offer_all_wf(window: WindowView, nonces: Seq<nat>)
    requires
        window.wf(),
    ensures
        offer_all(window, nonces).wf(),
    decreases nonces.len(),
{
    if nonces.len() > 0 {
        lemma_offer_all_wf(window, nonces.drop_last());
    }
}

proof fn lemma_offer_all_concat(window: WindowView, a: Seq<nat>, b: Seq<nat>)
    ensures
        offer_all(window, a + b) == offer_all(offer_all(window, a), b),
    decreases b.len(),
{
    if b.len() == 0 {
        assert(a + b =~= a);
    } else {
        assert((a + b).drop_last() =~= a + b.drop_last());
        lemma_offer_all_concat(window, a, b.drop_last());
    }
}

/// Setting bit `k` of word `w` sets that bit of the bitmap and no other.
proof fn lemma_bit_put(a: Seq<u64>, b: Seq<u64>, w: int, k: u64)
    requires
        0 <= w < a.len(),
        k < 64,
        b == a.update(w, a[w] | (1u64 << k)),
    ensures
        forall|i: int|
            0 <= i < a.len() * 64 ==> #[trigger] bitmap_bit(b, i) == (i == w * 64 + k || bitmap_bit(
                a,
                i,
            )),
{
    assert forall|i: int| 0 <= i < a.len() * 64 implies #[trigger] bitmap_bit(b, i) == (i == w * 64 + k
        || bitmap_bit(a, i)) by {
        if i / 64 == w {
            lemma_set_bit(a[w], k, (i % 64) as u64);
        }
    }
}

fn zeroed(words: usize) -> (out: Vec<u64>)
    ensures
        out@.len() == words,
        forall|k: int| 0 <= k < words * 64 ==> !#[trigger] bitmap_bit(out@, k),
{
    let mut out: Vec<u64> = Vec::new();
    while out.len() < words
        invariant
            out@.len() <= words,
            forall|j: int| 0 <= j < out@.len() ==> out@[j] == 0,
        decreases words - out@.len(),
    {
        out.push(0);
    }
    proof {
        assert forall|k: int| 0 <= k < words * 64 implies !#[trigger] bitmap_bit(out@, k) by {
            lemma_zero_word((k % 64) as u64);
        }
    }
    out
}

/// What is recorded decides nothing but itself: after a fresh nonce was
/// recorded, exactly those others may still be accepted that could be before
/// and are less than one window behind it.
pub proof fn law_recording_refuses_no_other(window: WindowView, n: nat, m: nat)
    requires
        window.wf(),
        window.fresh(n),
    ensures
        window.record(n).fresh(m) <==> m != n && window.fresh(m) && m + window.width > n,
        window.record(n).width == window.width,
{
}

/// A nonce that is a whole window behind the highest is refused.
pub proof fn law_old_nonces_are_refused(window: WindowView, n: nat)
    requires
        n + window.width <= window.highest,
    ensures
        !window.fresh(n),
{
}

/// A new window accepts every nonce, and offering a refused one changes nothing.
pub proof fn law_new_window_accepts_all(width: nat, n: nat, window: WindowView)
    requires
        width > 0,
    ensures
        WindowView::empty(width).fresh(n),
        WindowView::empty(width).width == width,
        !window.fresh(n) ==> window.offer(n) == window,
        window.fresh(n) ==> !window.offer(n).fresh(n) || window.width == 0,
{
}

} // verus!
