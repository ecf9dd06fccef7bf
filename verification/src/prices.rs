//! Ticker prices from the outside exchange. The boundary layer does the
//! HTTP and JSON work and hands in each entry's fields as plain optional
//! texts; keeping exactly the complete records is decided here.

use vstd::prelude::*;

verus! {

/// One traded symbol and its quoted price, as the ticker reports them.
#[derive(Debug)]
pub struct CryptoPrice {
    pub symbol: String,
    pub price: String,
}

impl View for CryptoPrice {
    type V = (Seq<char>, Seq<char>);

    open spec fn view(&self) -> (Seq<char>, Seq<char>) {
        (self.symbol@, self.price@)
    }
}

impl DeepView for CryptoPrice {
    type V = (Seq<char>, Seq<char>);

    open spec fn deep_view(&self) -> (Seq<char>, Seq<char>) {
        self.view()
    }
}

/// The records kept from a ticker response: exactly the entries whose
/// symbol and price are both present, in their original order.
pub open spec fn complete_prices(
    fields: Seq<(Option<Seq<char>>, Option<Seq<char>>)>,
) -> Seq<(Seq<char>, Seq<char>)>
    decreases fields.len(),
{
    if fields.len() == 0 {
        Seq::empty()
    } else {
        let rest = complete_prices(fields.drop_last());
        let f = fields.last();
        if f.0 is Some && f.1 is Some {
            rest.push((f.0->Some_0, f.1->Some_0))
        } else {
            rest
        }
    }
}

/// Builds the price list from per-entry fields, keeping exactly the
/// entries that carry both a symbol and a price.
pub fn coins_from_fields(fields: Vec<(Option<String>, Option<String>)>) -> (r: Vec<CryptoPrice>)
    ensures
        r.deep_view() == complete_prices(fields.deep_view()),
{
    let ghost fdv = fields.deep_view();
    let mut r: Vec<CryptoPrice> = Vec::new();
    let n = fields.len();
    let mut k: usize = 0;
    while k < n
        invariant
            0 <= k <= n,
            n == fields@.len(),
            fdv == fields.deep_view(),
            fdv.len() == n,
            r.deep_view() == complete_prices(fdv.take(k as int)),
        decreases n - k,
    {
        proof {
            assert(fdv.take(k + 1 as int).drop_last() =~= fdv.take(k as int));
            assert(fdv.take(k + 1 as int).last() == fdv[k as int]);
        }
        let entry = &fields[k];
        match (&entry.0, &entry.1) {
            (Some(s), Some(p)) => {
                let ghost pre = r.deep_view();
                r.push(CryptoPrice { symbol: s.clone(), price: p.clone() });
                proof {
                    assert(r.deep_view() =~= pre.push(
                        (fdv[k as int].0->Some_0, fdv[k as int].1->Some_0),
                    ));
                }
            },
            _ => {},
        }
        k = k + 1;
    }
    proof {
        assert(fdv.take(n as int) =~= fdv);
    }
    r
}

} // verus!
