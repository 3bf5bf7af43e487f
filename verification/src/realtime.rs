//! The realtime price feed: the subscription message, and the latest trade
//! price of each market.

use vstd::prelude::*;
use vstd::string::StringExecFns;
use crate::signing::{json_text, json_text_of};
use crate::text::{join, joined, texts};

verus! {

/// The latest trade price of each market that the feed has reported.  No
/// market stands twice.
#[derive(Debug)]
pub struct PriceBook {
    entries: Vec<(String, u64)>,
}

/// The first position from `from` on at which `entries` has the market
/// `code`, or the length of `entries` if there is none.
pub open spec fn entry_index(entries: Seq<(String, u64)>, code: Seq<char>, from: int) -> int
    decreases entries.len() - from,
{
    if from < 0 || from >= entries.len() {
        entries.len() as int
    } else if entries[from].0@ == code {
        from
    } else {
        entry_index(entries, code, from + 1)
    }
}

/// The price that `entries` holds for the market `code`.
pub open spec fn price_in(entries: Seq<(String, u64)>, code: Seq<char>) -> Option<u64> {
    let i = entry_index(entries, code, 0);
    if i < entries.len() {
        Some(entries[i].1)
    } else {
        None
    }
}

/// Whether no market stands twice in `entries`.
pub open spec fn distinct_codes(entries: Seq<(String, u64)>) -> bool {
    forall|i: int, j: int|
        0 <= i < j < entries.len() ==> (#[trigger] entries[i]).0@ != (#[trigger] entries[j]).0@
}

/// `entry_index` stays between `from` and the length; it points at the
/// market, and no earlier position from `from` on holds it.
pub proof fn lemma_entry_index(entries: Seq<(String, u64)>, code: Seq<char>, from: int)
    requires
        0 <= from <= entries.len(),
    ensures
        from <= entry_index(entries, code, from) <= entries.len(),
        entry_index(entries, code, from) < entries.len() ==> entries[entry_index(
            entries,
            code,
            from,
        )].0@ == code,
        forall|k: int|
            from <= k < entry_index(entries, code, from) ==> (#[trigger] entries[k]).0@ != code,
    decreases entries.len() - from,
{
    if from < entries.len() && entries[from].0@ != code {
        lemma_entry_index(entries, code, from + 1);
    }
}

/// Where two lists agree on the markets up to the first that holds `code`,
/// they hold `code` at the same position.
proof fn lemma_entry_index_same(
    a: Seq<(String, u64)>,
    b: Seq<(String, u64)>,
    code: Seq<char>,
    from: int,
)
    requires
        0 <= from <= a.len(),
        a.len() <= b.len(),
        forall|k: int| 0 <= k < a.len() ==> (#[trigger] a[k]).0@ == (#[trigger] b[k]).0@,
    ensures
        entry_index(a, code, from) < a.len() ==> entry_index(b, code, from) == entry_index(
            a,
            code,
            from,
        ),
        entry_index(a, code, from) == a.len() ==> entry_index(b, code, from) == entry_index(
            b,
            code,
            a.len() as int,
        ),
    decreases a.len() - from,
{
    if from < a.len() {
        assert(a[from].0@ == b[from].0@);
        if a[from].0@ != code {
            lemma_entry_index_same(a, b, code, from + 1);
        }
    }
}

impl PriceBook {
    /// No market stands twice.
    #[verifier::type_invariant]
    spec fn distinct(&self) -> bool {
        distinct_codes(self.entries@)
    }

    /// The price of the market `code`, if the feed has reported one.
    pub closed spec fn price(&self, code: Seq<char>) -> Option<u64> {
        price_in(self.entries@, code)
    }

    /// How many markets the book holds a price of.
    pub closed spec fn count(&self) -> nat {
        self.entries@.len()
    }

    /// A book without prices.
    pub fn new() -> (book: PriceBook)
        ensures
            book.count() == 0,
            forall|code: Seq<char>| book.price(code) is None,
    {
        PriceBook { entries: Vec::new() }
    }

    /// How many markets the book holds a price of.
    pub fn len(&self) -> (n: usize)
        ensures
            n == self.count(),
    {
        self.entries.len()
    }

    /// The latest price of the market `code`.
    pub fn get(&self, code: &str) -> (r: Option<u64>)
        ensures
            r == self.price(code@),
    {
        let name: String = String::from_str(code);
        let n: usize = self.entries.len();
        let mut i: usize = 0;
        while i < n
            invariant
                n == self.entries@.len(),
                i <= n,
                name@ == code@,
                entry_index(self.entries@, code@, 0) == entry_index(
                    self.entries@,
                    code@,
                    i as int,
                ),
            decreases n - i,
        {
            if self.entries[i].0 == name {
                return Some(self.entries[i].1);
            }
            i = i + 1;
        }
        None
    }

    /// Records `price` as the latest price of the market `code`, in place of
    /// the price it had.  No other market changes.
    pub fn update(&mut self, code: &str, price: u64)
        ensures
            final(self).price(code@) == Some(price),
            forall|other: Seq<char>|
                other != code@ ==> final(self).price(other) == old(self).price(other),
            final(self).count() == old(self).count() + (if old(self).price(code@) is Some {
                0int
            } else {
                1int
            }),
    {
        proof {
            use_type_invariant(&*self);
        }
        let ghost before = self.entries@;
        let ghost at = entry_index(before, code@, 0);
        let name: String = String::from_str(code);
        let n: usize = self.entries.len();
        let mut next: Vec<(String, u64)> = Vec::new();
        let mut i: usize = 0;
        let mut found: bool = false;
        proof {
            lemma_entry_index(before, code@, 0);
        }
        while i < n
            invariant
                n == before.len(),
                self.entries@ == before,
                distinct_codes(before),
                name@ == code@,
                i <= n,
                at == entry_index(before, code@, 0),
                0 <= at <= n,
                at < n ==> before[at].0@ == code@,
                !found ==> entry_index(before, code@, i as int) == at,
                found ==> at < i,
                next@.len() == i,
                forall|k: int| 0 <= k < i ==> (#[trigger] next@[k]).0@ == before[k].0@,
                forall|k: int|
                    0 <= k < i ==> (#[trigger] next@[k]).1 == if k == at {
                        price
                    } else {
                        before[k].1
                    },
            decreases n - i,
        {
            if self.entries[i].0 == name {
                proof {
                    if found {
                        assert(before[at].0@ != before[i as int].0@);
                    }
                }
                next.push((self.entries[i].0.clone(), price));
                found = true;
            } else {
                next.push((self.entries[i].0.clone(), self.entries[i].1));
            }
            i = i + 1;
        }
        if !found {
            next.push((name, price));
        }
        proof {
            let after = next@;
            let n = before.len() as int;
            assert forall|k: int| 0 <= k < n implies (#[trigger] before[k]).0@ == (
            #[trigger] after[k]).0@ by {}
            lemma_entry_index_same(before, after, code@, 0);
            if !found {
                assert(entry_index(after, code@, n) == n);
            }
            assert forall|other: Seq<char>| other != code@ implies price_in(after, other)
                == price_in(before, other) by {
                lemma_entry_index(before, other, 0);
                lemma_entry_index_same(before, after, other, 0);
                let at_other = entry_index(before, other, 0);
                if at_other < n {
                    assert(after[at_other].1 == before[at_other].1);
                } else if found {
                    assert(entry_index(after, other, n) == n);
                } else {
                    assert(entry_index(after, other, n + 1) == n + 1);
                    assert(entry_index(after, other, n) == n + 1);
                }
            }
            assert forall|a: int, b: int| 0 <= a < b < after.len() implies (
            #[trigger] after[a]).0@ != (#[trigger] after[b]).0@ by {
                if b < n {
                    assert(before[a].0@ != before[b].0@);
                } else {
                    assert(before[a].0@ != code@);
                }
            }
        }
        self.entries = next;
    }
}

/// The message that subscribes to the realtime prices of `codes` under the
/// ticket `ticket`: a JSON array of the ticket, the request and the format.
pub open spec fn subscription_text(ticket: Seq<char>, codes: Seq<Seq<char>>) -> Seq<char> {
    "[{\"ticket\":"@ + json_text_of(ticket) + "},{\"type\":\"ticker\",\"codes\":["@ + joined(
        Seq::new(codes.len(), |i: int| json_text_of(codes[i])),
        seq![','],
    ) + "],\"isOnlyRealtime\":true},{\"format\":\"DEFAULT\"}]"@
}

/// The message that subscribes to the realtime prices of `codes`.
pub fn subscription_message(ticket: &str, codes: &Vec<String>) -> (message: String)
    ensures
        message@ == subscription_text(ticket@, texts(codes@)),
{
    let n: usize = codes.len();
    let mut quoted: Vec<String> = Vec::new();
    let mut i: usize = 0;
    while i < n
        invariant
            n == codes@.len(),
            i <= n,
            quoted@.len() == i,
            forall|k: int| 0 <= k < i ==> (#[trigger] quoted@[k])@ == json_text_of(codes@[k]@),
        decreases n - i,
    {
        quoted.push(json_text(codes[i].as_str()));
        i = i + 1;
    }
    proof {
        reveal_strlit(",");
        assert(","@ =~= seq![',']);
        assert(texts(quoted@) =~= Seq::new(
            texts(codes@).len(),
            |k: int| json_text_of(texts(codes@)[k]),
        ));
    }
    let list: String = join(&quoted, ",");
    let mut message: String = String::from_str("[{\"ticket\":");
    let ticket_text: String = json_text(ticket);
    message.append(ticket_text.as_str());
    message.append("},{\"type\":\"ticker\",\"codes\":[");
    message.append(list.as_str());
    message.append("],\"isOnlyRealtime\":true},{\"format\":\"DEFAULT\"}]");
    assert(message@ =~= subscription_text(ticket@, texts(codes@)));
    message
}

} // verus!
