//! Decentralized identifiers (DIDs) of signal sources, and the kinds of
//! nodes and edges of the provenance graph.

use vstd::prelude::*;

use crate::encoding::{base58_text, bs58_encode, sha256, sha256_digest};
use crate::pubkey::Pubkey;
use crate::strings::{chars_of, str_eq};
use crate::text::{push_str, string_push};

verus! {

/// The pieces of `s` between occurrences of `c`, as `str::split` yields
/// them: one more piece than there are occurrences, empty pieces included.
pub open spec fn split_on(s: Seq<char>, c: char) -> Seq<Seq<char>>
    decreases s.len(),
{
    if s.len() == 0 {
        seq![Seq::<char>::empty()]
    } else {
        let init = split_on(s.drop_last(), c);
        if s.last() == c {
            init.push(Seq::<char>::empty())
        } else {
            init.update(init.len() - 1, init.last().push(s.last()))
        }
    }
}

/// The pieces joined back with `c` between them.
pub open spec fn join_with(p: Seq<Seq<char>>, c: char) -> Seq<char>
    decreases p.len(),
{
    if p.len() <= 1 {
        if p.len() == 1 { p[0] } else { Seq::empty() }
    } else {
        join_with(p.drop_last(), c) + seq![c] + p.last()
    }
}

/// `s` holds no `c`.
pub open spec fn free_of(s: Seq<char>, c: char) -> bool {
    forall|i: int| 0 <= i < s.len() ==> #[trigger] s[i] != c
}

/// Decentralized Identifier for signal sources.
#[derive(Debug, PartialEq, Eq, Hash)]
pub struct DID {
    /// Method name (e.g., "solana", "key", "web")
    pub method: String,
    /// Method-specific identifier
    pub identifier: String,
}

/// The canonical text `did:<method>:<identifier>`.
pub open spec fn did_text(method: Seq<char>, identifier: Seq<char>) -> Seq<char> {
    "did:"@ + method + ":"@ + identifier
}

/// What parsing `s` gives: the method and identifier when `s` splits on
/// `:` into exactly three pieces of which the first is `did`.
pub open spec fn did_parse(s: Seq<char>) -> Option<(Seq<char>, Seq<char>)> {
    let p = split_on(s, ':');
    if p.len() == 3 && p[0] == "did"@ {
        Some((p[1], p[2]))
    } else {
        None
    }
}

/// The message of a failed parse of `s`.
pub open spec fn did_error_text(s: Seq<char>) -> Seq<char> {
    "Invalid DID format: "@ + s
}

impl Clone for DID {
    fn clone(&self) -> (d: Self)
        ensures
            d.method@ == self.method@,
            d.identifier@ == self.identifier@,
    {
        DID { method: self.method.clone(), identifier: self.identifier.clone() }
    }
}

proof fn lemma_split_nonempty(s: Seq<char>, c: char)
    ensures
        split_on(s, c).len() >= 1,
    decreases s.len(),
{
    if s.len() > 0 {
        lemma_split_nonempty(s.drop_last(), c);
    }
}

proof fn lemma_split_push_sep(a: Seq<char>, c: char)
    ensures
        split_on(a.push(c), c) == split_on(a, c).push(Seq::<char>::empty()),
{
    assert(a.push(c).drop_last() =~= a);
}

proof fn lemma_split_append_free(a: Seq<char>, b: Seq<char>, c: char)
    requires
        free_of(b, c),
    ensures
        split_on(a + b, c) == split_on(a, c).update(
            split_on(a, c).len() - 1,
            split_on(a, c).last() + b,
        ),
    decreases b.len(),
{
    lemma_split_nonempty(a, c);
    let p = split_on(a, c);
    if b.len() == 0 {
        assert(a + b =~= a);
        assert(p.last() + b =~= p.last());
        assert(p.update(p.len() - 1, p.last() + b) =~= p);
    } else {
        let b0 = b.drop_last();
        let x = b.last();
        assert(free_of(b0, c));
        lemma_split_append_free(a, b0, c);
        assert((a + b).drop_last() =~= a + b0);
        assert((a + b).last() == x);
        assert(x != c);
        let q = split_on(a + b0, c);
        assert(q == p.update(p.len() - 1, p.last() + b0));
        assert(q.last() == p.last() + b0);
        assert((p.last() + b0).push(x) =~= p.last() + b);
        assert(q.update(q.len() - 1, q.last().push(x)) =~= p.update(p.len() - 1, p.last() + b));
    }
}

proof fn lemma_split_join(s: Seq<char>, c: char)
    ensures
        split_on(s, c).len() >= 1,
        join_with(split_on(s, c), c) == s,
        forall|k: int| 0 <= k < split_on(s, c).len() ==> free_of(#[trigger] split_on(s, c)[k], c),
    decreases s.len(),
{
    if s.len() == 0 {
        assert(split_on(s, c) =~= seq![Seq::<char>::empty()]);
        assert(join_with(split_on(s, c), c) =~= s);
    } else {
        let s0 = s.drop_last();
        let x = s.last();
        lemma_split_join(s0, c);
        let p = split_on(s0, c);
        let q = split_on(s, c);
        assert(s0.push(x) =~= s);
        if x == c {
            assert(q == p.push(Seq::<char>::empty()));
            assert(q.drop_last() =~= p);
            assert(join_with(q, c) =~= s);
            assert forall|k: int| 0 <= k < q.len() implies free_of(#[trigger] q[k], c) by {
                if k < p.len() {
                    assert(q[k] == p[k]);
                }
            }
        } else {
            let L = p.len() - 1;
            assert(q == p.update(L, p.last().push(x)));
            if p.len() == 1 {
                assert(join_with(p, c) == p[0]);
                assert(join_with(q, c) =~= s);
            } else {
                assert(q.drop_last() =~= p.drop_last());
                assert(join_with(q, c) == join_with(p.drop_last(), c) + seq![c] + p.last().push(x));
                assert(join_with(p, c) == join_with(p.drop_last(), c) + seq![c] + p.last());
                assert(join_with(q, c) =~= s);
            }
            assert forall|k: int| 0 <= k < q.len() implies free_of(#[trigger] q[k], c) by {
                if k < L {
                    assert(q[k] == p[k]);
                } else {
                    assert(q[k] == p[L].push(x));
                    assert(free_of(p[L], c));
                }
            }
        }
    }
}

/// Printing a DID whose method and identifier hold no `:` and parsing the
/// text gives the same method and identifier back.
pub proof fn lemma_did_print_then_parse(method: Seq<char>, identifier: Seq<char>)
    requires
        free_of(method, ':'),
        free_of(identifier, ':'),
    ensures
        did_parse(did_text(method, identifier)) == Some((method, identifier)),
{
    reveal_strlit("did:");
    reveal_strlit(":");
    reveal_strlit("did");
    let d = "did"@;
    assert(free_of(d, ':'));
    lemma_split_append_free(Seq::<char>::empty(), d, ':');
    assert(Seq::<char>::empty() + d =~= d);
    let p1 = split_on(d, ':');
    assert(split_on(Seq::<char>::empty(), ':') =~= seq![Seq::<char>::empty()]);
    assert(p1 =~= seq![d]);
    lemma_split_push_sep(d, ':');
    let a2 = d.push(':');
    assert(split_on(a2, ':') =~= seq![d, Seq::<char>::empty()]);
    lemma_split_append_free(a2, method, ':');
    let a3 = a2 + method;
    assert(split_on(a3, ':') =~= seq![d, method]);
    lemma_split_push_sep(a3, ':');
    let a4 = a3.push(':');
    assert(split_on(a4, ':') =~= seq![d, method, Seq::<char>::empty()]);
    lemma_split_append_free(a4, identifier, ':');
    let a5 = a4 + identifier;
    assert(split_on(a5, ':') =~= seq![d, method, identifier]);
    assert(a5 =~= did_text(method, identifier));
}

/// A text that parses as a DID is the canonical text of what it parses to,
/// and the method and identifier hold no `:`.
pub proof fn lemma_did_parse_then_print(s: Seq<char>)
    requires
        did_parse(s) is Some,
    ensures
        ({
            let (m, id) = did_parse(s)->Some_0;
            &&& did_text(m, id) == s
            &&& free_of(m, ':')
            &&& free_of(id, ':')
        }),
{
    reveal_strlit("did:");
    reveal_strlit(":");
    reveal_strlit("did");
    lemma_split_join(s, ':');
    let p = split_on(s, ':');
    assert(free_of(p[1], ':'));
    assert(free_of(p[2], ':'));
    assert(p.drop_last().drop_last() =~= seq![p[0]]);
    assert(join_with(p.drop_last().drop_last(), ':') == p[0]);
    let j1 = join_with(p.drop_last(), ':');
    assert(j1 == p[0] + seq![':'] + p[1]);
    assert(join_with(p, ':') == j1 + seq![':'] + p[2]);
    assert(p[0] == "did"@);
    assert("did:"@ =~= "did"@ + seq![':']);
    assert(":"@ =~= seq![':']);
    assert(join_with(p, ':') =~= did_text(p[1], p[2]));
}

/// A text parses as a DID exactly when it splits on `:` into three pieces
/// and begins with `did:`.
pub proof fn lemma_did_parse_exactly(s: Seq<char>)
    ensures
        did_parse(s) is Some <==> (split_on(s, ':').len() == 3 && s.len() >= 4 && s.take(4) == "did:"@),
{
    reveal_strlit("did:");
    reveal_strlit("did");
    lemma_split_join(s, ':');
    let p = split_on(s, ':');
    if p.len() == 3 {
        assert(p.drop_last().drop_last() =~= seq![p[0]]);
        assert(join_with(p.drop_last().drop_last(), ':') == p[0]);
        let j1 = join_with(p.drop_last(), ':');
        assert(j1 == p[0] + seq![':'] + p[1]);
        assert(s == j1 + seq![':'] + p[2]);
        let n0 = p[0].len();
        assert(s[n0 as int] == ':');
        assert forall|i: int| 0 <= i < n0 implies s[i] == #[trigger] p[0][i] by {}
        assert(free_of(p[0], ':'));
        if p[0] == "did"@ {
            assert(s.take(4) =~= "did:"@);
        }
        if s.len() >= 4 && s.take(4) == "did:"@ {
            assert("did:"@[0] == 'd' && "did:"@[1] == 'i' && "did:"@[2] == 'd' && "did:"@[3] == ':');
            assert(s[0] == s.take(4)[0] && s[1] == s.take(4)[1] && s[2] == s.take(4)[2] && s[3] == s.take(4)[3]);
            if n0 > 3 {
                assert(p[0][3] == s[3]);
            }
            if n0 < 3 {
                assert(s[n0 as int] != ':');
            }
            assert(n0 == 3);
            assert(p[0] =~= "did"@);
        }
    }
}

impl DID {
    /// The DID of a Solana account: method `solana`, the base58 address as
    /// identifier.
    pub fn from_pubkey(pubkey: &Pubkey) -> (d: Self)
        ensures
            d.method@ == "solana"@,
            d.identifier@ == base58_text(pubkey.bytes@),
    {
        DID { method: String::from_str("solana"), identifier: bs58_encode(pubkey.bytes.as_slice()) }
    }

    /// The DID of a hash: method `key`, the base58 text of the hash as
    /// identifier.
    pub fn from_hash(hash: &[u8]) -> (d: Self)
        ensures
            d.method@ == "key"@,
            d.identifier@ == base58_text(hash@),
    {
        DID { method: String::from_str("key"), identifier: bs58_encode(hash) }
    }

    /// The canonical text `did:<method>:<identifier>`.
    pub fn to_string(&self) -> (s: String)
        ensures
            s@ == did_text(self.method@, self.identifier@),
    {
        let mut s = String::from_str("did:");
        push_str(&mut s, self.method.as_str());
        push_str(&mut s, ":");
        push_str(&mut s, self.identifier.as_str());
        proof {
            reveal_strlit("did:");
        }
        s
    }

    /// Parses `did:<method>:<identifier>`: the text must split on `:` into
    /// exactly three pieces, the first `did`.
    pub fn from_string(s: &str) -> (r: Result<DID, String>)
        ensures
            match did_parse(s@) {
                Some((m, id)) => r matches Ok(d) && d.method@ == m && d.identifier@ == id,
                None => r matches Err(e) && e@ == did_error_text(s@),
            },
    {
        let chars = chars_of(s);
        let n = chars.len();
        let mut done: Vec<String> = Vec::new();
        let mut cur = String::new();
        let mut i: usize = 0;
        while i < n
            invariant
                i <= n,
                n == chars@.len(),
                chars@ == s@,
                done@.map_values(|x: String| x@).push(cur@) == split_on(chars@.take(i as int), ':'),
            decreases n - i,
        {
            let ch = chars[i];
            proof {
                assert(chars@.take(i + 1).drop_last() =~= chars@.take(i as int));
                assert(chars@.take(i + 1).last() == ch);
                lemma_split_nonempty(chars@.take(i as int), ':');
            }
            let ghost old_views = done@.map_values(|x: String| x@);
            let ghost old_cur = cur@;
            if ch == ':' {
                done.push(cur);
                cur = String::new();
                proof {
                    assert(done@.map_values(|x: String| x@) =~= old_views.push(old_cur));
                }
            } else {
                string_push(&mut cur, ch);
            }
            proof {
                assert(done@.map_values(|x: String| x@).push(cur@) =~= split_on(chars@.take(i + 1), ':'));
            }
            i = i + 1;
        }
        proof {
            assert(chars@.take(n as int) =~= s@);
        }
        if done.len() == 2 && str_eq(done[0].as_str(), "did") {
            proof {
                reveal_strlit("did");
            }
            Ok(DID { method: done[1].clone(), identifier: cur })
        } else {
            let mut e = String::from_str("Invalid DID format: ");
            push_str(&mut e, s);
            proof {
                reveal_strlit("Invalid DID format: ");
            }
            Err(e)
        }
    }

    /// Whether `proof` proves ownership: its SHA-256 digest, in base58, is
    /// the identifier.
    pub fn verify(&self, proof: &[u8]) -> (r: bool)
        ensures
            r == (base58_text(sha256_digest(proof@)) == self.identifier@),
    {
        let hash = sha256(proof);
        self.verify_digest(hash.as_slice())
    }

    /// Whether `digest`, in base58, is the identifier.
    pub fn verify_digest(&self, digest: &[u8]) -> (r: bool)
        ensures
            r == (base58_text(digest@) == self.identifier@),
    {
        let text = bs58_encode(digest);
        str_eq(text.as_str(), self.identifier.as_str())
    }
}

/// Type of signal source.
#[derive(Debug, Clone, Copy, PartialEq, Eq, Hash, Structural)]
pub enum SignalSourceType {
    /// Direct blockchain observation
    OnChain,
    /// External data feed
    ExternalFeed,
    /// User input
    UserInput,
    /// ML model output
    MLModel,
    /// Aggregated signal
    Aggregator,
    /// Unknown source
    Unknown,
}

/// Relationship between two nodes of the provenance graph.
#[derive(Debug, Clone, Copy, PartialEq, Eq, Hash, Structural)]
pub enum EdgeType {
    /// Direct derivation
    Derived,
    /// Validation relationship
    Validated,
    /// Aggregation relationship
    Aggregated,
    /// Correlation
    Correlated,
}

/// Counters and version of a provenance graph.
#[derive(Debug, Clone, Copy, PartialEq, Eq, Structural)]
pub struct GraphMetadata {
    pub total_nodes: u64,
    pub total_edges: u64,
    pub last_updated: u64,
    pub version: u32,
}

} // verus!
