use crate::number::{nat_digits, push_nat_digits};
use crate::text::{push_text, string_of, texts_of};
use vstd::prelude::*;

verus! {

/// An IPv4 address as the network manager gives it, with the first byte of the address in the
/// lowest eight bits, and the length of its network prefix, written as four numbers with
/// points between them, a slash, and the length.
pub open spec fn ipv4_text(ip: u32, mask: u32) -> Seq<char> {
    nat_digits((ip & 0xff) as nat) + seq!['.'] + nat_digits(((ip >> 8) & 0xff) as nat) + seq!['.']
        + nat_digits(((ip >> 16) & 0xff) as nat) + seq!['.'] + nat_digits((ip >> 24) as nat)
        + seq!['/'] + nat_digits(mask as nat)
}

/// The address `ip` with the prefix length `mask`, written out.
pub fn ipv4_format(ip: u32, mask: u32) -> (r: String)
    ensures
        r@ == ipv4_text(ip, mask),
{
    let mut out: Vec<char> = Vec::new();
    push_nat_digits(&mut out, (ip & 0xff) as u128);
    out.push('.');
    push_nat_digits(&mut out, ((ip >> 8) & 0xff) as u128);
    out.push('.');
    push_nat_digits(&mut out, ((ip >> 16) & 0xff) as u128);
    out.push('.');
    push_nat_digits(&mut out, (ip >> 24) as u128);
    out.push('/');
    push_nat_digits(&mut out, mask as u128);
    assert(out@ =~= ipv4_text(ip, mask));
    string_of(&out)
}

/// The texts `items` with `sep` between them.
pub open spec fn joined_with(items: Seq<Seq<char>>, sep: Seq<char>) -> Seq<char>
    decreases items.len(),
{
    if items.len() == 0 {
        Seq::empty()
    } else if items.len() == 1 {
        items[0]
    } else {
        joined_with(items.drop_last(), sep) + sep + items.last()
    }
}

/// Joins `items` with `sep` between them through `Itertools::join`, which writes the first
/// item and then, for each further item, the separator and the item.
#[verifier::external_body]
fn join(items: &Vec<String>, sep: &str) -> (r: String)
    ensures
        r@ == joined_with(texts_of(items@), sep@),
{
    itertools::Itertools::join(&mut items.iter(), sep)
}

/// The addresses `addrs`, each with its prefix length, as `ipv4_text` writes them.
pub open spec fn address_texts(addrs: Seq<(u32, u32)>) -> Seq<Seq<char>> {
    Seq::new(addrs.len(), |i: int| ipv4_text(addrs[i].0, addrs[i].1))
}

/// What a network task shows for the addresses `addrs`, each with its prefix length: the
/// addresses written out with a space between them, nothing where there is none.
pub fn addresses_text(addrs: &Vec<(u32, u32)>) -> (r: Option<String>)
    ensures
        r is Some <==> addrs.len() > 0,
        r matches Some(text) ==> text@ == joined_with(address_texts(addrs@), " "@),
{
    let mut ips: Vec<String> = Vec::new();
    let mut i: usize = 0;
    while i < addrs.len()
        invariant
            i <= addrs.len(),
            texts_of(ips@) == address_texts(addrs@).take(i as int),
        decreases addrs.len() - i,
    {
        let ghost before = texts_of(ips@);
        let text = ipv4_format(addrs[i].0, addrs[i].1);
        let ghost written = text@;
        push_text(&mut ips, text);
        assert(texts_of(ips@) =~= address_texts(addrs@).take(i + 1));
        i += 1;
    }
    assert(address_texts(addrs@).take(addrs.len() as int) == address_texts(addrs@));
    if ips.len() > 0 {
        Some(join(&ips, " "))
    } else {
        None
    }
}

} // verus!
