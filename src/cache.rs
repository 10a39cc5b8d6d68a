use vstd::prelude::*;

verus! {

/// A class of responses that share one generation counter.
#[derive(Debug, Clone, Copy, PartialEq, Eq, Structural)]
pub enum ResourceClass {
    /// The ranked entries.
    Entries,
    /// The record listings.
    Records,
    /// The player ranking.
    Rankings,
    /// One player's profile, by the player's 1-based id.
    Player(usize),
}

/// A response-producing query: its class and a request parameter such as a
/// pagination offset.
#[derive(Debug, Clone, Copy, PartialEq, Eq, Structural)]
pub struct Resource {
    pub class: ResourceClass,
    pub offset: u64,
}

/// The version of a response: the resource together with the counters it was
/// derived from. `dependency` is the entries counter for the classes whose
/// content also depends on positions.
#[derive(Debug, Clone, Copy, PartialEq, Eq, Structural)]
pub struct Fingerprint {
    pub resource: Resource,
    pub generation: u64,
    pub dependency: u64,
}

/// The counters, as plain values.
pub struct GenerationsView {
    pub entries: u64,
    pub records: u64,
    pub rankings: u64,
    pub players: Seq<u64>,
}

/// The next value of a counter.
pub open spec fn next_gen(g: u64) -> u64 {
    if g == u64::MAX {
        0
    } else {
        (g + 1) as u64
    }
}

/// The counter of player `p` (1-based); 0 for a player without one.
pub open spec fn player_gen(g: GenerationsView, p: usize) -> u64 {
    if 1 <= p <= g.players.len() {
        g.players[p - 1]
    } else {
        0
    }
}

/// The fingerprint of `res` under the counters `g`.
pub open spec fn fingerprint_of(g: GenerationsView, res: Resource) -> Fingerprint {
    match res.class {
        ResourceClass::Entries => Fingerprint { resource: res, generation: g.entries, dependency: 0 },
        ResourceClass::Records => Fingerprint {
            resource: res,
            generation: g.records,
            dependency: g.entries,
        },
        ResourceClass::Rankings => Fingerprint {
            resource: res,
            generation: g.rankings,
            dependency: g.entries,
        },
        ResourceClass::Player(p) => Fingerprint {
            resource: res,
            generation: player_gen(g, p),
            dependency: g.entries,
        },
    }
}

/// Process-wide generation counters, one per resource class, starting at 0.
pub struct Generations {
    entries: u64,
    records: u64,
    rankings: u64,
    players: Vec<u64>,
}

impl View for Generations {
    type V = GenerationsView;

    closed spec fn view(&self) -> GenerationsView {
        GenerationsView {
            entries: self.entries,
            records: self.records,
            rankings: self.rankings,
            players: self.players@,
        }
    }
}

fn next(g: u64) -> (r: u64)
    ensures
        r == next_gen(g),
{
    if g == u64::MAX {
        0
    } else {
        g + 1
    }
}

impl Generations {
    pub fn new() -> (r: Generations)
        ensures
            r@ == (GenerationsView { entries: 0, records: 0, rankings: 0, players: Seq::empty() }),
    {
        Generations { entries: 0, records: 0, rankings: 0, players: Vec::new() }
    }

    /// The fingerprint of `res` now; it depends on the counters alone.
    pub fn compute(&self, res: Resource) -> (r: Fingerprint)
        ensures
            r == fingerprint_of(self@, res),
    {
        match res.class {
            ResourceClass::Entries => Fingerprint { resource: res, generation: self.entries, dependency: 0 },
            ResourceClass::Records => Fingerprint {
                resource: res,
                generation: self.records,
                dependency: self.entries,
            },
            ResourceClass::Rankings => Fingerprint {
                resource: res,
                generation: self.rankings,
                dependency: self.entries,
            },
            ResourceClass::Player(p) => {
                let generation = if 1 <= p && p <= self.players.len() {
                    self.players[p - 1]
                } else {
                    0
                };
                Fingerprint { resource: res, generation, dependency: self.entries }
            },
        }
    }

    pub fn bump_entries(&mut self)
        ensures
            final(self)@ == (GenerationsView { entries: next_gen(old(self)@.entries), ..old(self)@ }),
    {
        self.entries = next(self.entries);
    }

    pub fn bump_records(&mut self)
        ensures
            final(self)@ == (GenerationsView { records: next_gen(old(self)@.records), ..old(self)@ }),
    {
        self.records = next(self.records);
    }

    pub fn bump_rankings(&mut self)
        ensures
            final(self)@ == (GenerationsView { rankings: next_gen(old(self)@.rankings), ..old(self)@ }),
    {
        self.rankings = next(self.rankings);
    }

    /// Starts a counter for the next player.
    pub fn add_player(&mut self)
        ensures
            final(self)@ == (GenerationsView { players: old(self)@.players.push(0), ..old(self)@ }),
    {
        self.players.push(0);
    }

    /// Bumps the counter of player `p` (1-based), if it has one.
    pub fn bump_player(&mut self, p: usize)
        ensures
            1 <= p <= old(self)@.players.len() ==> final(self)@ == (GenerationsView {
                players: old(self)@.players.update(p - 1, next_gen(old(self)@.players[p - 1])),
                ..old(self)@
            }),
            !(1 <= p <= old(self)@.players.len()) ==> final(self)@ == old(self)@,
    {
        if 1 <= p && p <= self.players.len() {
            let g = next(self.players[p - 1]);
            self.players.set(p - 1, g);
        }
    }
}

/// The ASCII lower-case hex digit for `d` in `0..16`.
pub open spec fn hex_char(d: int) -> u8 {
    if d < 10 {
        (48 + d) as u8
    } else {
        (87 + d) as u8
    }
}

/// The last `n` hex digits of `v`, most significant first.
pub open spec fn hex_digits(v: nat, n: nat) -> Seq<u8>
    decreases n,
{
    if n == 0 {
        Seq::empty()
    } else {
        hex_digits(v / 16, (n - 1) as nat).push(hex_char((v % 16) as int))
    }
}

pub open spec fn class_kind(c: ResourceClass) -> nat {
    match c {
        ResourceClass::Entries => 0,
        ResourceClass::Records => 1,
        ResourceClass::Rankings => 2,
        ResourceClass::Player(_) => 3,
    }
}

pub open spec fn class_player(c: ResourceClass) -> nat {
    match c {
        ResourceClass::Player(p) => p as nat,
        _ => 0,
    }
}

/// The quoted entity tag of `fp`: its class kind, player, offset and counters
/// in fixed-width hex, separated by dashes.
pub open spec fn tag_of(fp: Fingerprint) -> Seq<u8> {
    seq![34u8] + hex_digits(class_kind(fp.resource.class), 1) + seq![45u8] + hex_digits(
        class_player(fp.resource.class),
        16,
    ) + seq![45u8] + hex_digits(fp.resource.offset as nat, 16) + seq![45u8] + hex_digits(
        fp.generation as nat,
        16,
    ) + seq![45u8] + hex_digits(fp.dependency as nat, 16) + seq![34u8]
}

/// What a conditional request calls for.
pub enum Conditional {
    /// The client's copy is current: answer "not modified", build no body.
    NotModified,
    /// Build the full body and attach this tag.
    Fresh(Vec<u8>),
}

fn push_hex(out: &mut Vec<u8>, v: u64, n: usize)
    ensures
        final(out)@ == old(out)@ + hex_digits(v as nat, n as nat),
    decreases n,
{
    if n == 0 {
        assert(old(out)@ + hex_digits(v as nat, 0) =~= old(out)@);
    } else {
        push_hex(out, v / 16, n - 1);
        let d = (v % 16) as u8;
        let c: u8 = if d < 10 {
            48 + d
        } else {
            87 + d
        };
        out.push(c);
        assert(out@ =~= old(out)@ + hex_digits(v as nat, n as nat));
    }
}

impl Fingerprint {
    /// The entity tag that stands for this fingerprint in a response header.
    pub fn tag(&self) -> (r: Vec<u8>)
        ensures
            r@ == tag_of(*self),
    {
        let mut out: Vec<u8> = Vec::new();
        out.push(34u8);
        let kind: u64 = match self.resource.class {
            ResourceClass::Entries => 0,
            ResourceClass::Records => 1,
            ResourceClass::Rankings => 2,
            ResourceClass::Player(_) => 3,
        };
        let player: u64 = match self.resource.class {
            ResourceClass::Player(p) => p as u64,
            _ => 0,
        };
        push_hex(&mut out, kind, 1);
        out.push(45u8);
        push_hex(&mut out, player, 16);
        out.push(45u8);
        push_hex(&mut out, self.resource.offset, 16);
        out.push(45u8);
        push_hex(&mut out, self.generation, 16);
        out.push(45u8);
        push_hex(&mut out, self.dependency, 16);
        out.push(34u8);
        assert(out@ =~= tag_of(*self));
        out
    }
}

/// Decides a conditional request: "not modified" exactly when the client's
/// tag equals the computed one. Anything else, a malformed tag included, calls
/// for a full response.
pub fn handle_conditional(header: &[u8], computed: &Fingerprint) -> (r: Conditional)
    ensures
        header@ == tag_of(*computed) ==> r is NotModified,
        header@ != tag_of(*computed) ==> r is Fresh && r->Fresh_0@ == tag_of(*computed),
{
    let tag = computed.tag();
    if header.len() != tag.len() {
        return Conditional::Fresh(tag);
    }
    let mut i: usize = 0;
    while i < tag.len()
        invariant
            header@.len() == tag@.len(),
            i <= tag@.len(),
            tag@ == tag_of(*computed),
            forall|k: int| 0 <= k < i ==> header@[k] == tag@[k],
        decreases tag@.len() - i,
    {
        if header[i] != tag[i] {
            return Conditional::Fresh(tag);
        }
        i = i + 1;
    }
    assert(header@ =~= tag@);
    Conditional::NotModified
}

} // verus!
