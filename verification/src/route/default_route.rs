//! Reads the default route that `ip` prints.

use crate::net;
use crate::net::Ipv4Addr;
use crate::text;
use vstd::prelude::*;

verus! {

/// The gateway and the device that the words name last: the word after `via`,
/// where it is an address, and the word after `dev`.
pub open spec fn scan(
    words: Seq<Seq<char>>,
    gateway: Option<Ipv4Addr>,
    dev: Option<Seq<char>>,
) -> (Option<Ipv4Addr>, Option<Seq<char>>)
    decreases words.len(),
{
    if words.len() == 0 {
        (gateway, dev)
    } else if words[0] == "via"@ {
        if words.len() == 1 {
            (None, dev)
        } else {
            scan(words.skip(2), net::read_dotted(words[1]), dev)
        }
    } else if words[0] == "dev"@ {
        if words.len() == 1 {
            (gateway, None)
        } else {
            scan(words.skip(2), gateway, Some(words[1]))
        }
    } else {
        scan(words.skip(1), gateway, dev)
    }
}

/// The gateway and the device of the default route in `text`, as in
/// "default via 192.168.1.1 dev eth0"; `None` where one of them is missing.
pub fn parse_default_route(printed: &str) -> (r: Option<(Ipv4Addr, String)>)
    ensures
        match scan(text::words(printed@), None, None) {
            (Some(gateway), Some(dev)) => r matches Some((g, d)) && g == gateway && d@ == dev,
            _ => r is None,
        },
{
    let words: Vec<String> = text::split_words(printed);
    let ghost all = text::views(words@);
    let mut gateway: Option<Ipv4Addr> = None;
    let mut dev: Option<String> = None;
    let mut i: usize = 0;
    assert(all.skip(0) =~= all);
    proof {
        reveal_strlit("via");
        reveal_strlit("dev");
        assert("via"@[0] == 'v' && "dev"@[0] == 'd');
    }
    while i < words.len()
        invariant
            all == text::views(words@),
            i <= words@.len(),
            scan(
                all.skip(i as int),
                gateway,
                match dev {
                    Some(d) => Some(d@),
                    None => None,
                },
            ) == scan(all, None, None),
            "via"@ != "dev"@,
        decreases words@.len() - i,
    {
        let ghost rest = all.skip(i as int);
        assert(rest.skip(1) =~= all.skip(i + 1));
        if i + 1 < words.len() {
            assert(rest.skip(2) =~= all.skip(i + 2));
        }
        if text::same(words[i].as_str(), "via") {
            if i + 1 < words.len() {
                gateway = Ipv4Addr::parse(words[i + 1].as_str());
                i += 2;
            } else {
                gateway = None;
                i += 1;
            }
        } else if text::same(words[i].as_str(), "dev") {
            if i + 1 < words.len() {
                dev = Some(words[i + 1].clone());
                i += 2;
            } else {
                dev = None;
                i += 1;
            }
        } else {
            i += 1;
        }
    }
    match (gateway, dev) {
        (Some(g), Some(d)) => Some((g, d)),
        _ => None,
    }
}

/// Whether none of the words announces a gateway or a device.
pub open spec fn is_plain(words: Seq<Seq<char>>) -> bool {
    forall|i: int| 0 <= i < words.len() ==> #[trigger] words[i] != "via"@ && words[i] != "dev"@
}

proof fn lemma_scan_passes(
    pre: Seq<Seq<char>>,
    rest: Seq<Seq<char>>,
    gateway: Option<Ipv4Addr>,
    dev: Option<Seq<char>>,
)
    requires
        is_plain(pre),
    ensures
        scan(pre + rest, gateway, dev) == scan(rest, gateway, dev),
    decreases pre.len(),
{
    if pre.len() == 0 {
        assert(pre + rest =~= rest);
    } else {
        let less = pre.skip(1);
        assert forall|i: int| 0 <= i < less.len() implies #[trigger] less[i] != "via"@ && less[i]
            != "dev"@ by {
            assert(less[i] == pre[i + 1]);
        }
        assert((pre + rest)[0] == pre[0]);
        assert((pre + rest).skip(1) =~= less + rest);
        lemma_scan_passes(less, rest, gateway, dev);
    }
}

/// The gateway is the address after `via` and the device the word after `dev`,
/// in either order and whatever else is printed around them; without the one or
/// the other there is none.
pub proof fn law_default_route_is_found(
    pre: Seq<Seq<char>>,
    gateway: Ipv4Addr,
    mid: Seq<Seq<char>>,
    dev: Seq<char>,
    post: Seq<Seq<char>>,
)
    requires
        is_plain(pre),
        is_plain(mid),
        is_plain(post),
    ensures
        scan(
            pre + (seq!["via"@, gateway.dotted()] + (mid + (seq!["dev"@, dev] + post))),
            None,
            None,
        ) == (Some(gateway), Some(dev)),
        scan(
            pre + (seq!["dev"@, dev] + (mid + (seq!["via"@, gateway.dotted()] + post))),
            None,
            None,
        ) == (Some(gateway), Some(dev)),
        scan(pre + (seq!["dev"@, dev] + post), None, None).0 is None,
        scan(pre + (seq!["via"@, gateway.dotted()] + post), None, None).1 is None,
{
    reveal_strlit("via");
    reveal_strlit("dev");
    assert("via"@[0] == 'v' && "dev"@[0] == 'd');
    net::law_dotted_reads_back(gateway);
    let via = seq!["via"@, gateway.dotted()];
    let on = seq!["dev"@, dev];
    lemma_scan_pair(on, post, Some(gateway), None);
    lemma_scan_pair(via, mid + (on + post), None, None);
    lemma_scan_passes(pre, via + (mid + (on + post)), None, None);
    lemma_scan_passes(mid, on + post, Some(gateway), None);
    lemma_scan_end(post, Some(gateway), Some(dev));
    lemma_scan_pair(on, mid + (via + post), None, None);
    lemma_scan_pair(via, post, None, Some(dev));
    lemma_scan_passes(pre, on + (mid + (via + post)), None, None);
    lemma_scan_passes(mid, via + post, None, Some(dev));
    lemma_scan_passes(pre, on + post, None, None);
    lemma_scan_pair(on, post, None, None);
    lemma_scan_end(post, None, Some(dev));
    lemma_scan_passes(pre, via + post, None, None);
    lemma_scan_pair(via, post, None, None);
    lemma_scan_end(post, Some(gateway), None);
}

proof fn lemma_scan_end(
    post: Seq<Seq<char>>,
    gateway: Option<Ipv4Addr>,
    dev: Option<Seq<char>>,
)
    requires
        is_plain(post),
    ensures
        scan(post, gateway, dev) == (gateway, dev),
{
    lemma_scan_passes(post, Seq::empty(), gateway, dev);
    assert(post + Seq::<Seq<char>>::empty() =~= post);
}

proof fn lemma_scan_pair(
    pair: Seq<Seq<char>>,
    rest: Seq<Seq<char>>,
    gateway: Option<Ipv4Addr>,
    dev: Option<Seq<char>>,
)
    requires
        pair.len() == 2,
        "via"@ != "dev"@,
    ensures
        pair[0] == "via"@ ==> scan(pair + rest, gateway, dev) == scan(
            rest,
            net::read_dotted(pair[1]),
            dev,
        ),
        pair[0] == "dev"@ ==> scan(pair + rest, gateway, dev) == scan(rest, gateway, Some(pair[1])),
{
    let all = pair + rest;
    assert(all[0] == pair[0] && all[1] == pair[1]);
    assert(all.skip(2) =~= rest);
}

} // verus!
