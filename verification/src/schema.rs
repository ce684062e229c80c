//! The record types: server, player, status, network identity.
//!
//! Two schema profiles share the core: one carries a bare host string and a
//! protocol tag, the other a resolved address and no protocol field. The
//! profile is selected at construction time by the identity variant.

use vstd::prelude::*;
use crate::country::Country;
use crate::json::{Json, JVal, entries_view, jview, json_eq, str_eqs};
use crate::protocols::Protocol;

verus! {

#[derive(Clone, Copy, Debug, PartialEq, Eq, Structural)]
pub enum Status {
    Unspecified,
    Up,
    Down,
}

impl Default for Status {
    /// The default status is the unspecified tag.
    fn default() -> (r: Status)
        ensures
            r == Status::Unspecified,
    {
        Status::Unspecified
    }
}

/// The literal tag of a status in the encoded form.
pub open spec fn status_tag(s: Status) -> Seq<char> {
    match s {
        Status::Unspecified => "Unspecified"@,
        Status::Up => "Up"@,
        Status::Down => "Down"@,
    }
}

/// The status whose tag is `t`, if the tag belongs to the closed set.
pub open spec fn status_from_tag(t: Seq<char>) -> Option<Status> {
    if t == status_tag(Status::Unspecified) {
        Some(Status::Unspecified)
    } else if t == status_tag(Status::Up) {
        Some(Status::Up)
    } else if t == status_tag(Status::Down) {
        Some(Status::Down)
    } else {
        None
    }
}

pub fn status_to_string(s: Status) -> (r: String)
    ensures
        r@ == status_tag(s),
{
    match s {
        Status::Unspecified => "Unspecified".to_owned(),
        Status::Up => "Up".to_owned(),
        Status::Down => "Down".to_owned(),
    }
}

/// Strict tag parse: `None` for anything outside the closed set.
pub fn status_parse(t: &str) -> (r: Option<Status>)
    ensures
        r == status_from_tag(t@),
{
    if str_eqs(t, "Unspecified") {
        Some(Status::Unspecified)
    } else if str_eqs(t, "Up") {
        Some(Status::Up)
    } else if str_eqs(t, "Down") {
        Some(Status::Down)
    } else {
        None
    }
}

/// The mandatory network identity: a bare host name in one schema profile, a
/// resolved socket address (kept in its textual form) in the other.
pub enum Identity {
    Host(String),
    Addr(String),
}

#[verifier::ext_equal]
pub enum IdentityV {
    Host(Seq<char>),
    Addr(Seq<char>),
}

impl View for Identity {
    type V = IdentityV;

    open spec fn view(&self) -> IdentityV {
        match self {
            Identity::Host(h) => IdentityV::Host(h@),
            Identity::Addr(a) => IdentityV::Addr(a@),
        }
    }
}

pub struct Player {
    pub name: String,
    pub ping: Option<i64>,
    pub info: Vec<(String, Json)>,
}

#[verifier::ext_equal]
pub struct PlayerV {
    pub name: Seq<char>,
    pub ping: Option<int>,
    pub info: Seq<(Seq<char>, JVal)>,
}

pub open spec fn opt_str_view(o: Option<String>) -> Option<Seq<char>> {
    match o {
        Some(s) => Some(s@),
        None => None,
    }
}

pub open spec fn opt_int_view(o: Option<i64>) -> Option<int> {
    match o {
        Some(n) => Some(n as int),
        None => None,
    }
}

impl View for Player {
    type V = PlayerV;

    open spec fn view(&self) -> PlayerV {
        PlayerV {
            name: self.name@,
            ping: opt_int_view(self.ping),
            info: entries_view(self.info@),
        }
    }
}

impl Default for Player {
    /// An empty player: no name, unknown ping, empty info mapping.
    fn default() -> (r: Player)
        ensures
            r.name@ == Seq::<char>::empty(),
            r.ping is None,
            r.info@ == Seq::<(String, Json)>::empty(),
    {
        Player { name: String::new(), ping: None, info: Vec::new() }
    }
}

pub struct Server {
    pub addr: Identity,
    pub protocol: Option<Protocol>,
    pub status: Status,
    pub country: Country,
    pub rules: Vec<(String, Json)>,
    pub name: Option<String>,
    pub need_pass: Option<bool>,
    pub mod_name: Option<String>,
    pub game_type: Option<String>,
    pub terrain: Option<String>,
    pub num_clients: Option<i64>,
    pub max_clients: Option<i64>,
    pub num_bots: Option<i64>,
    pub secure: Option<bool>,
    pub ping: Option<i64>,
    pub players: Option<Vec<Player>>,
}

#[verifier::ext_equal]
pub struct ServerV {
    pub addr: IdentityV,
    pub protocol: Option<Protocol>,
    pub status: Status,
    pub country: Seq<char>,
    pub rules: Seq<(Seq<char>, JVal)>,
    pub name: Option<Seq<char>>,
    pub need_pass: Option<bool>,
    pub mod_name: Option<Seq<char>>,
    pub game_type: Option<Seq<char>>,
    pub terrain: Option<Seq<char>>,
    pub num_clients: Option<int>,
    pub max_clients: Option<int>,
    pub num_bots: Option<int>,
    pub secure: Option<bool>,
    pub ping: Option<int>,
    pub players: Option<Seq<PlayerV>>,
}

pub open spec fn players_view(ps: Seq<Player>) -> Seq<PlayerV> {
    Seq::new(ps.len(), |i: int| ps[i]@)
}

pub open spec fn opt_players_view(o: Option<Vec<Player>>) -> Option<Seq<PlayerV>> {
    match o {
        Some(v) => Some(players_view(v@)),
        None => None,
    }
}

impl View for Server {
    type V = ServerV;

    open spec fn view(&self) -> ServerV {
        ServerV {
            addr: self.addr@,
            protocol: self.protocol,
            status: self.status,
            country: self.country@,
            rules: entries_view(self.rules@),
            name: opt_str_view(self.name),
            need_pass: self.need_pass,
            mod_name: opt_str_view(self.mod_name),
            game_type: opt_str_view(self.game_type),
            terrain: opt_str_view(self.terrain),
            num_clients: opt_int_view(self.num_clients),
            max_clients: opt_int_view(self.max_clients),
            num_bots: opt_int_view(self.num_bots),
            secure: self.secure,
            ping: opt_int_view(self.ping),
            players: opt_players_view(self.players),
        }
    }
}

impl Server {
    /// A fresh record for the given identity: everything else defaulted. The
    /// host profile carries a (defaulted) protocol tag; the address profile
    /// has no protocol field.
    pub fn new(addr: Identity) -> (r: Server)
        ensures
            r.addr == addr,
            addr is Host ==> r.protocol == Some(Protocol::Unspecified),
            addr is Addr ==> r.protocol is None,
            r.status == Status::Unspecified,
            r.country@ == Seq::<char>::empty(),
            r.rules@ == Seq::<(String, Json)>::empty(),
            r.name is None,
            r.need_pass is None,
            r.mod_name is None,
            r.game_type is None,
            r.terrain is None,
            r.num_clients is None,
            r.max_clients is None,
            r.num_bots is None,
            r.secure is None,
            r.ping is None,
            r.players is None,
    {
        let protocol: Option<Protocol> = match &addr {
            Identity::Host(_) => Some(Protocol::Unspecified),
            Identity::Addr(_) => None,
        };
        Server {
            addr,
            protocol,
            status: Status::default(),
            country: Country::default(),
            rules: Vec::new(),
            name: None,
            need_pass: None,
            mod_name: None,
            game_type: None,
            terrain: None,
            num_clients: None,
            max_clients: None,
            num_bots: None,
            secure: None,
            ping: None,
            players: None,
        }
    }
}

/// Equality of entry lists by content.
pub fn entries_eq(a: &Vec<(String, Json)>, b: &Vec<(String, Json)>) -> (r: bool)
    ensures
        r == (entries_view(a@) == entries_view(b@)),
{
    if a.len() != b.len() {
        assert(entries_view(a@).len() != entries_view(b@).len());
        return false;
    }
    let mut i: usize = 0;
    while i < a.len()
        invariant
            i <= a.len(),
            a@.len() == b@.len(),
            forall|j: int| 0 <= j < i ==> a@[j].0@ == b@[j].0@ && jview(a@[j].1) == jview(
                b@[j].1,
            ),
        decreases a.len() - i,
    {
        let ke = str_eqs(a[i].0.as_str(), b[i].0.as_str());
        if !ke || !json_eq(&a[i].1, &b[i].1) {
            assert(entries_view(a@)[i as int] != entries_view(b@)[i as int]);
            return false;
        }
        i += 1;
    }
    assert(entries_view(a@) =~= entries_view(b@));
    true
}

fn opt_string_eq(a: &Option<String>, b: &Option<String>) -> (r: bool)
    ensures
        r == (opt_str_view(*a) == opt_str_view(*b)),
{
    match (a, b) {
        (None, None) => true,
        (Some(x), Some(y)) => *x == *y,
        _ => false,
    }
}

fn opt_i64_eq(a: Option<i64>, b: Option<i64>) -> (r: bool)
    ensures
        r == (opt_int_view(a) == opt_int_view(b)),
{
    match (a, b) {
        (None, None) => true,
        (Some(x), Some(y)) => x == y,
        _ => false,
    }
}

fn opt_bool_eq(a: Option<bool>, b: Option<bool>) -> (r: bool)
    ensures
        r == (a == b),
{
    match (a, b) {
        (None, None) => true,
        (Some(x), Some(y)) => x == y,
        _ => false,
    }
}

impl PartialEq for Player {
    /// Equality of players is equality of their views.
    fn eq(&self, other: &Player) -> (r: bool) {
        let ne = str_eqs(self.name.as_str(), other.name.as_str());
        let pe = opt_i64_eq(self.ping, other.ping);
        let ie = entries_eq(&self.info, &other.info);
        let r = ne && pe && ie;
        proof {
            if r {
                assert(self@ =~= other@);
            }
        }
        r
    }
}

impl vstd::std_specs::cmp::PartialEqSpecImpl for Player {
    open spec fn obeys_eq_spec() -> bool {
        true
    }

    open spec fn eq_spec(&self, other: &Player) -> bool {
        self@ == other@
    }
}

fn players_eq(a: &Vec<Player>, b: &Vec<Player>) -> (r: bool)
    ensures
        r == (players_view(a@) == players_view(b@)),
{
    if a.len() != b.len() {
        assert(players_view(a@).len() != players_view(b@).len());
        return false;
    }
    let mut i: usize = 0;
    while i < a.len()
        invariant
            i <= a.len(),
            a@.len() == b@.len(),
            forall|j: int| 0 <= j < i ==> a@[j]@ == b@[j]@,
        decreases a.len() - i,
    {
        if !(a[i] == b[i]) {
            assert(players_view(a@)[i as int] != players_view(b@)[i as int]);
            return false;
        }
        i += 1;
    }
    assert(players_view(a@) =~= players_view(b@));
    true
}

impl PartialEq for Server {
    /// Equality of records is equality of their views.
    fn eq(&self, other: &Server) -> (r: bool) {
        let ae = match (&self.addr, &other.addr) {
            (Identity::Host(x), Identity::Host(y)) => str_eqs(x.as_str(), y.as_str()),
            (Identity::Addr(x), Identity::Addr(y)) => str_eqs(x.as_str(), y.as_str()),
            _ => false,
        };
        let pre = match (self.protocol, other.protocol) {
            (None, None) => true,
            (Some(x), Some(y)) => x == y,
            _ => false,
        };
        let se = self.status == other.status;
        let ce = self.country == other.country;
        let re = entries_eq(&self.rules, &other.rules);
        let nme = opt_string_eq(&self.name, &other.name);
        let npe = opt_bool_eq(self.need_pass, other.need_pass);
        let moe = opt_string_eq(&self.mod_name, &other.mod_name);
        let gte = opt_string_eq(&self.game_type, &other.game_type);
        let tee = opt_string_eq(&self.terrain, &other.terrain);
        let nce = opt_i64_eq(self.num_clients, other.num_clients);
        let mce = opt_i64_eq(self.max_clients, other.max_clients);
        let nbe = opt_i64_eq(self.num_bots, other.num_bots);
        let sce = opt_bool_eq(self.secure, other.secure);
        let pie = opt_i64_eq(self.ping, other.ping);
        let pye = match (&self.players, &other.players) {
            (None, None) => true,
            (Some(x), Some(y)) => players_eq(x, y),
            _ => false,
        };
        let r = ae && pre && se && ce && re && nme && npe && moe && gte && tee && nce && mce
            && nbe && sce && pie && pye;
        proof {
            if r {
                assert(self@ =~= other@);
            }
        }
        r
    }
}

impl vstd::std_specs::cmp::PartialEqSpecImpl for Server {
    open spec fn obeys_eq_spec() -> bool {
        true
    }

    open spec fn eq_spec(&self, other: &Server) -> bool {
        self@ == other@
    }
}

} // verus!
