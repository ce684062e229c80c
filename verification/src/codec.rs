//! The record codec: a one-shot structural transform between `Server` values
//! and the structured tree.
//!
//! Encoding is total and pins the exact entry list: the identity key, the
//! protocol tag when the profile has one, the always-present `status`,
//! `country` and `rules`, then each optional field only when it holds data.
//! Decoding fails fast: unknown status or protocol tags and ill-typed values
//! abort the whole record, while an unknown country code silently falls back
//! to the unspecified country and a missing defaulted field takes its default.

use vstd::prelude::*;
use crate::country::{Country, country_decode_code};
use crate::json::{
    Json, JVal, elems_view, entries_view, first_val, jview, lemma_arr_view, lemma_obj_view,
    str_eqs,
};
use crate::protocols::{Protocol, protocol_from_tag, protocol_tag, protocol_parse,
    protocol_to_string};
use crate::schema::{
    Identity, IdentityV, Player, PlayerV, Server, ServerV, Status, opt_int_view,
    opt_players_view, opt_str_view, players_view, status_from_tag, status_parse, status_tag,
    status_to_string,
};

verus! {

broadcast use lemma_obj_view, lemma_arr_view;

/// Why a record failed to decode.
#[derive(Clone, Copy, Debug, PartialEq, Eq, Structural)]
pub enum DecodeError {
    /// Neither a host nor an address entry is present.
    MissingAddress,
    /// A mandatory player field is absent.
    MissingField,
    /// A status or protocol tag outside its closed set.
    UnknownTag,
    /// A value of the wrong shape for its field.
    TypeMismatch,
}

pub open spec fn opt_jstr(o: Option<Seq<char>>) -> Option<JVal> {
    match o {
        Some(s) => Some(JVal::Str(s)),
        None => None,
    }
}

pub open spec fn opt_jint(o: Option<int>) -> Option<JVal> {
    match o {
        Some(n) => Some(JVal::Int(n)),
        None => None,
    }
}

pub open spec fn opt_jbool(o: Option<bool>) -> Option<JVal> {
    match o {
        Some(b) => Some(JVal::Bool(b)),
        None => None,
    }
}

pub open spec fn opt_protocol_jval(o: Option<Protocol>) -> Option<JVal> {
    match o {
        Some(p) => Some(JVal::Str(protocol_tag(p))),
        None => None,
    }
}

/// An optional field's contribution to the entry list: one entry when the
/// field holds data, nothing at all when it is absent.
pub open spec fn opt_entry(k: Seq<char>, v: Option<JVal>) -> Seq<(Seq<char>, JVal)> {
    match v {
        Some(j) => seq![(k, j)],
        None => Seq::<(Seq<char>, JVal)>::empty(),
    }
}

/// The mandatory identity entry: the profile selects the key.
pub open spec fn spec_identity_entry(id: IdentityV) -> (Seq<char>, JVal) {
    match id {
        IdentityV::Host(h) => ("host"@, JVal::Str(h)),
        IdentityV::Addr(a) => ("addr"@, JVal::Str(a)),
    }
}

/// A player encodes as an object: mandatory name, optional ping, mandatory
/// info mapping.
pub open spec fn spec_player_obj(p: PlayerV) -> JVal {
    JVal::Obj(
        seq![("name"@, JVal::Str(p.name))] + opt_entry("ping"@, opt_jint(p.ping)) + seq![
            ("info"@, JVal::Obj(p.info)),
        ],
    )
}

pub open spec fn spec_players_jval(ps: Seq<PlayerV>) -> JVal {
    JVal::Arr(Seq::new(ps.len(), |i: int| spec_player_obj(ps[i])))
}

pub open spec fn opt_players_jval(o: Option<Seq<PlayerV>>) -> Option<JVal> {
    match o {
        Some(ps) => Some(spec_players_jval(ps)),
        None => None,
    }
}

/// The exact entry list of an encoded record, in order.
pub open spec fn spec_server_entries(s: ServerV) -> Seq<(Seq<char>, JVal)> {
    seq![spec_identity_entry(s.addr)] + opt_entry("protocol"@, opt_protocol_jval(s.protocol))
        + seq![("status"@, JVal::Str(status_tag(s.status)))] + seq![
        ("country"@, JVal::Str(s.country)),
    ] + seq![("rules"@, JVal::Obj(s.rules))] + opt_entry("name"@, opt_jstr(s.name)) + opt_entry(
        "need_pass"@,
        opt_jbool(s.need_pass),
    ) + opt_entry("mod_name"@, opt_jstr(s.mod_name)) + opt_entry(
        "game_type"@,
        opt_jstr(s.game_type),
    ) + opt_entry("terrain"@, opt_jstr(s.terrain)) + opt_entry(
        "num_clients"@,
        opt_jint(s.num_clients),
    ) + opt_entry("max_clients"@, opt_jint(s.max_clients)) + opt_entry(
        "num_bots"@,
        opt_jint(s.num_bots),
    ) + opt_entry("secure"@, opt_jbool(s.secure)) + opt_entry("ping"@, opt_jint(s.ping))
        + opt_entry("players"@, opt_players_jval(s.players))
}

/// What encoding a record returns.
pub open spec fn spec_encode(s: ServerV) -> JVal {
    JVal::Obj(spec_server_entries(s))
}

fn player_to_json(p: Player) -> (r: Json)
    ensures
        r@ == spec_player_obj(p@),
{
    let ghost pv = p@;
    let mut es: Vec<(String, Json)> = Vec::new();
    es.push(("name".to_owned(), Json::Str(p.name)));
    let ghost acc = seq![("name"@, JVal::Str(pv.name))] + opt_entry("ping"@, opt_jint(pv.ping));
    match p.ping {
        Some(n) => es.push(("ping".to_owned(), Json::Int(n))),
        None => (),
    }
    proof {
        assert(entries_view(es@) =~= acc);
    }
    es.push(("info".to_owned(), Json::Obj(p.info)));
    proof {
        assert(entries_view(es@) =~= acc + seq![("info"@, JVal::Obj(pv.info))]);
    }
    Json::Obj(es)
}

fn players_to_json(ps: Vec<Player>) -> (r: Json)
    ensures
        r@ == spec_players_jval(players_view(ps@)),
{
    let ghost ps0 = ps@;
    let mut rest = ps;
    let mut arr: Vec<Json> = Vec::new();
    while rest.len() > 0
        invariant
            arr@.len() + rest@.len() == ps0.len(),
            rest@ == ps0.skip(arr@.len() as int),
            forall|j: int| 0 <= j < arr@.len() ==> jview(arr@[j]) == spec_player_obj(ps0[j]@),
        decreases rest@.len(),
    {
        let ghost k = arr@.len() as int;
        let p = rest.remove(0);
        assert(p == ps0[k]);
        let j = player_to_json(p);
        arr.push(j);
        proof {
            assert(rest@ =~= ps0.skip(k + 1));
        }
    }
    proof {
        assert(elems_view(arr@) =~= Seq::new(
            players_view(ps0).len(),
            |i: int| spec_player_obj(players_view(ps0)[i]),
        ));
    }
    Json::Arr(arr)
}

fn push_entry(es: &mut Vec<(String, Json)>, key: String, v: Json)
    ensures
        entries_view(final(es)@) == entries_view(old(es)@) + seq![(key@, v@)],
{
    let ghost k0 = key@;
    let ghost v0 = v@;
    es.push((key, v));
    proof {
        assert(entries_view(es@) =~= entries_view(old(es)@) + seq![(k0, v0)]);
    }
}

fn push_opt_str(es: &mut Vec<(String, Json)>, key: &str, v: Option<String>)
    ensures
        entries_view(final(es)@) == entries_view(old(es)@) + opt_entry(key@, opt_jstr(opt_str_view(v))),
{
    match v {
        Some(x) => {
            push_entry(es, key.to_owned(), Json::Str(x));
        },
        None => {
            proof {
                assert(entries_view(es@) =~= entries_view(es@) + opt_entry(
                    key@,
                    opt_jstr(opt_str_view(v)),
                ));
            }
        },
    }
}

fn push_opt_int(es: &mut Vec<(String, Json)>, key: &str, v: Option<i64>)
    ensures
        entries_view(final(es)@) == entries_view(old(es)@) + opt_entry(key@, opt_jint(opt_int_view(v))),
{
    match v {
        Some(x) => {
            push_entry(es, key.to_owned(), Json::Int(x));
        },
        None => {
            proof {
                assert(entries_view(es@) =~= entries_view(es@) + opt_entry(
                    key@,
                    opt_jint(opt_int_view(v)),
                ));
            }
        },
    }
}

fn push_opt_bool(es: &mut Vec<(String, Json)>, key: &str, v: Option<bool>)
    ensures
        entries_view(final(es)@) == entries_view(old(es)@) + opt_entry(key@, opt_jbool(v)),
{
    match v {
        Some(x) => {
            push_entry(es, key.to_owned(), Json::Bool(x));
        },
        None => {
            proof {
                assert(entries_view(es@) =~= entries_view(es@) + opt_entry(key@, opt_jbool(v)));
            }
        },
    }
}

/// Encode a record into the structured tree. Total: every record has exactly
/// one encoding, and an absent optional field leaves its key out entirely.
#[verifier::rlimit(50)]
pub fn encode(s: Server) -> (r: Json)
    ensures
        r@ == spec_encode(s@),
{
    let ghost sv = s@;
    let mut es: Vec<(String, Json)> = Vec::new();
    proof {
        assert(entries_view(es@) =~= Seq::<(Seq<char>, JVal)>::empty());
    }
    match s.addr {
        Identity::Host(h) => push_entry(&mut es, "host".to_owned(), Json::Str(h)),
        Identity::Addr(a) => push_entry(&mut es, "addr".to_owned(), Json::Str(a)),
    }
    let ghost mut acc = seq![spec_identity_entry(sv.addr)];
    proof {
        assert(Seq::<(Seq<char>, JVal)>::empty() + acc =~= acc);
        assert(entries_view(es@) == acc);
    }
    match s.protocol {
        Some(p) => push_entry(&mut es, "protocol".to_owned(), Json::Str(protocol_to_string(p))),
        None => (),
    }
    proof {
        acc = acc + opt_entry("protocol"@, opt_protocol_jval(sv.protocol));
        assert(entries_view(es@) == acc);
    }
    push_entry(&mut es, "status".to_owned(), Json::Str(status_to_string(s.status)));
    proof {
        acc = acc + seq![("status"@, JVal::Str(status_tag(sv.status)))];
        assert(entries_view(es@) == acc);
    }
    push_entry(&mut es, "country".to_owned(), Json::Str(s.country.encode()));
    proof {
        acc = acc + seq![("country"@, JVal::Str(sv.country))];
        assert(entries_view(es@) == acc);
    }
    push_entry(&mut es, "rules".to_owned(), Json::Obj(s.rules));
    proof {
        acc = acc + seq![("rules"@, JVal::Obj(sv.rules))];
        assert(entries_view(es@) == acc);
    }
    push_opt_str(&mut es, "name", s.name);
    proof {
        acc = acc + opt_entry("name"@, opt_jstr(sv.name));
        assert(entries_view(es@) == acc);
    }
    push_opt_bool(&mut es, "need_pass", s.need_pass);
    proof {
        acc = acc + opt_entry("need_pass"@, opt_jbool(sv.need_pass));
        assert(entries_view(es@) == acc);
    }
    push_opt_str(&mut es, "mod_name", s.mod_name);
    proof {
        acc = acc + opt_entry("mod_name"@, opt_jstr(sv.mod_name));
        assert(entries_view(es@) == acc);
    }
    push_opt_str(&mut es, "game_type", s.game_type);
    proof {
        acc = acc + opt_entry("game_type"@, opt_jstr(sv.game_type));
        assert(entries_view(es@) == acc);
    }
    push_opt_str(&mut es, "terrain", s.terrain);
    proof {
        acc = acc + opt_entry("terrain"@, opt_jstr(sv.terrain));
        assert(entries_view(es@) == acc);
    }
    push_opt_int(&mut es, "num_clients", s.num_clients);
    proof {
        acc = acc + opt_entry("num_clients"@, opt_jint(sv.num_clients));
        assert(entries_view(es@) == acc);
    }
    push_opt_int(&mut es, "max_clients", s.max_clients);
    proof {
        acc = acc + opt_entry("max_clients"@, opt_jint(sv.max_clients));
        assert(entries_view(es@) == acc);
    }
    push_opt_int(&mut es, "num_bots", s.num_bots);
    proof {
        acc = acc + opt_entry("num_bots"@, opt_jint(sv.num_bots));
        assert(entries_view(es@) == acc);
    }
    push_opt_bool(&mut es, "secure", s.secure);
    proof {
        acc = acc + opt_entry("secure"@, opt_jbool(sv.secure));
        assert(entries_view(es@) == acc);
    }
    push_opt_int(&mut es, "ping", s.ping);
    proof {
        acc = acc + opt_entry("ping"@, opt_jint(sv.ping));
        assert(entries_view(es@) == acc);
    }
    match s.players {
        Some(ps) => {
            let arr = players_to_json(ps);
            push_entry(&mut es, "players".to_owned(), arr);
        },
        None => (),
    }
    proof {
        acc = acc + opt_entry("players"@, opt_players_jval(sv.players));
        assert(entries_view(es@) == acc);
        assert(acc == spec_server_entries(sv));
    }
    Json::Obj(es)
}

// ---------------------------------------------------------------------------
// Decoding
// ---------------------------------------------------------------------------

/// The schema's keys, pinned to their characters: distinct keys stay distinct
/// inside the decoder's key scan.
pub proof fn lemma_keys_distinct()
    ensures
        "host"@.len() == 4,
        "addr"@.len() == 4,
        "protocol"@.len() == 8,
        "status"@.len() == 6,
        "country"@.len() == 7,
        "rules"@.len() == 5,
        "name"@.len() == 4,
        "need_pass"@.len() == 9,
        "mod_name"@.len() == 8,
        "game_type"@.len() == 9,
        "terrain"@.len() == 7,
        "num_clients"@.len() == 11,
        "max_clients"@.len() == 11,
        "num_bots"@.len() == 8,
        "secure"@.len() == 6,
        "ping"@.len() == 4,
        "players"@.len() == 7,
        "info"@.len() == 4,
        "host"@ != "addr"@,
        "host"@ != "name"@,
        "host"@ != "ping"@,
        "addr"@ != "name"@,
        "addr"@ != "ping"@,
        "name"@ != "ping"@,
        "name"@ != "info"@,
        "ping"@ != "info"@,
        "host"@ != "info"@,
        "addr"@ != "info"@,
        "status"@ != "secure"@,
        "country"@ != "terrain"@,
        "country"@ != "players"@,
        "terrain"@ != "players"@,
        "protocol"@ != "mod_name"@,
        "protocol"@ != "num_bots"@,
        "mod_name"@ != "num_bots"@,
        "need_pass"@ != "game_type"@,
        "num_clients"@ != "max_clients"@,
{
    reveal_strlit("host");
    reveal_strlit("addr");
    reveal_strlit("protocol");
    reveal_strlit("status");
    reveal_strlit("country");
    reveal_strlit("rules");
    reveal_strlit("name");
    reveal_strlit("need_pass");
    reveal_strlit("mod_name");
    reveal_strlit("game_type");
    reveal_strlit("terrain");
    reveal_strlit("num_clients");
    reveal_strlit("max_clients");
    reveal_strlit("num_bots");
    reveal_strlit("secure");
    reveal_strlit("ping");
    reveal_strlit("players");
    reveal_strlit("info");
    assert("host"@[0] == 'h');
    assert("addr"@[0] == 'a');
    assert("name"@[0] == 'n');
    assert("ping"@[0] == 'p');
    assert("info"@[0] == 'i');
    assert("status"@[1] == 't');
    assert("secure"@[1] == 'e');
    assert("country"@[0] == 'c');
    assert("terrain"@[0] == 't');
    assert("players"@[0] == 'p');
    assert("protocol"@[0] == 'p');
    assert("mod_name"@[0] == 'm');
    assert("num_bots"@[0] == 'n');
    assert("need_pass"@[0] == 'n');
    assert("game_type"@[0] == 'g');
    assert("num_clients"@[0] == 'n');
    assert("max_clients"@[0] == 'm');
}

pub open spec fn opt_jview(o: Option<Json>) -> Option<JVal> {
    match o {
        Some(j) => Some(jview(j)),
        None => None,
    }
}

/// The mandatory identity: a `host` entry wins over an `addr` entry; neither
/// present is a hard error.
pub open spec fn dec_identity(host: Option<JVal>, addr: Option<JVal>) -> Result<
    IdentityV,
    DecodeError,
> {
    match host {
        Some(JVal::Str(h)) => Ok(IdentityV::Host(h)),
        Some(_) => Err(DecodeError::TypeMismatch),
        None => match addr {
            Some(JVal::Str(a)) => Ok(IdentityV::Addr(a)),
            Some(_) => Err(DecodeError::TypeMismatch),
            None => Err(DecodeError::MissingAddress),
        },
    }
}

/// The protocol tag is a schema field of the host profile only: there a
/// missing entry takes the default and an unknown tag is a hard error; the
/// address profile has no such field and ignores the entry.
pub open spec fn dec_protocol(id: IdentityV, o: Option<JVal>) -> Result<
    Option<Protocol>,
    DecodeError,
> {
    match id {
        IdentityV::Addr(_) => Ok(None),
        IdentityV::Host(_) => match o {
            None => Ok(Some(Protocol::Unspecified)),
            Some(JVal::Str(t)) => match protocol_from_tag(t) {
                Some(p) => Ok(Some(p)),
                None => Err(DecodeError::UnknownTag),
            },
            Some(_) => Err(DecodeError::TypeMismatch),
        },
    }
}

/// Strict status decoding: a missing entry takes the default, an unknown tag
/// is a hard error.
pub open spec fn dec_status(o: Option<JVal>) -> Result<Status, DecodeError> {
    match o {
        None => Ok(Status::Unspecified),
        Some(JVal::Str(t)) => match status_from_tag(t) {
            Some(st) => Ok(st),
            None => Err(DecodeError::UnknownTag),
        },
        Some(_) => Err(DecodeError::TypeMismatch),
    }
}

/// Fallback country decoding: a missing entry takes the default and an
/// unknown identifier falls back to the unspecified country; only a value
/// that is not text at all is an error.
pub open spec fn dec_country(o: Option<JVal>) -> Result<Seq<char>, DecodeError> {
    match o {
        None => Ok(Seq::<char>::empty()),
        Some(JVal::Str(c)) => Ok(country_decode_code(c)),
        Some(_) => Err(DecodeError::TypeMismatch),
    }
}

pub open spec fn dec_rules(o: Option<JVal>) -> Result<Seq<(Seq<char>, JVal)>, DecodeError> {
    match o {
        None => Ok(Seq::<(Seq<char>, JVal)>::empty()),
        Some(JVal::Obj(m)) => Ok(m),
        Some(_) => Err(DecodeError::TypeMismatch),
    }
}

pub open spec fn dec_opt_str(o: Option<JVal>) -> Result<Option<Seq<char>>, DecodeError> {
    match o {
        None => Ok(None),
        Some(JVal::Null) => Ok(None),
        Some(JVal::Str(s)) => Ok(Some(s)),
        Some(_) => Err(DecodeError::TypeMismatch),
    }
}

pub open spec fn dec_opt_int(o: Option<JVal>) -> Result<Option<int>, DecodeError> {
    match o {
        None => Ok(None),
        Some(JVal::Null) => Ok(None),
        Some(JVal::Int(n)) => Ok(Some(n)),
        Some(_) => Err(DecodeError::TypeMismatch),
    }
}

pub open spec fn dec_opt_bool(o: Option<JVal>) -> Result<Option<bool>, DecodeError> {
    match o {
        None => Ok(None),
        Some(JVal::Null) => Ok(None),
        Some(JVal::Bool(b)) => Ok(Some(b)),
        Some(_) => Err(DecodeError::TypeMismatch),
    }
}

/// A player object: mandatory name, optional ping, mandatory info mapping.
pub open spec fn dec_player(v: JVal) -> Result<PlayerV, DecodeError> {
    match v {
        JVal::Obj(es) => {
            let nr = match first_val(es, "name"@) {
                Some(JVal::Str(s)) => Ok(s),
                Some(_) => Err(DecodeError::TypeMismatch),
                None => Err(DecodeError::MissingField),
            };
            let pr = dec_opt_int(first_val(es, "ping"@));
            let ir = match first_val(es, "info"@) {
                Some(JVal::Obj(m)) => Ok(m),
                Some(_) => Err(DecodeError::TypeMismatch),
                None => Err(DecodeError::MissingField),
            };
            if nr is Err {
                Err(nr->Err_0)
            } else if pr is Err {
                Err(pr->Err_0)
            } else if ir is Err {
                Err(ir->Err_0)
            } else {
                Ok(PlayerV { name: nr->Ok_0, ping: pr->Ok_0, info: ir->Ok_0 })
            }
        },
        _ => Err(DecodeError::TypeMismatch),
    }
}

/// Players decode element by element; the first failure aborts the record.
pub open spec fn dec_players_seq(s: Seq<JVal>) -> Result<Seq<PlayerV>, DecodeError>
    decreases s.len(),
{
    if s.len() == 0 {
        Ok(Seq::<PlayerV>::empty())
    } else {
        match dec_player(s[0]) {
            Err(e) => Err(e),
            Ok(p) => match dec_players_seq(s.skip(1)) {
                Err(e) => Err(e),
                Ok(rest) => Ok(seq![p] + rest),
            },
        }
    }
}

pub open spec fn dec_players(o: Option<JVal>) -> Result<Option<Seq<PlayerV>>, DecodeError> {
    match o {
        None => Ok(None),
        Some(JVal::Null) => Ok(None),
        Some(JVal::Arr(a)) => match dec_players_seq(a) {
            Ok(ps) => Ok(Some(ps)),
            Err(e) => Err(e),
        },
        Some(_) => Err(DecodeError::TypeMismatch),
    }
}

/// What decoding an object's entry list returns: each field is read from the
/// first entry carrying its key, and the first failing field (in schema
/// order) aborts the record.
pub open spec fn spec_decode_obj(es: Seq<(Seq<char>, JVal)>) -> Result<ServerV, DecodeError> {
    let ir = dec_identity(first_val(es, "host"@), first_val(es, "addr"@));
    if ir is Err {
        Err(ir->Err_0)
    } else {
        let id = ir->Ok_0;
        let pr = dec_protocol(id, first_val(es, "protocol"@));
        let sr = dec_status(first_val(es, "status"@));
        let cr = dec_country(first_val(es, "country"@));
        let rr = dec_rules(first_val(es, "rules"@));
        let nmr = dec_opt_str(first_val(es, "name"@));
        let npr = dec_opt_bool(first_val(es, "need_pass"@));
        let mor = dec_opt_str(first_val(es, "mod_name"@));
        let gtr = dec_opt_str(first_val(es, "game_type"@));
        let ter = dec_opt_str(first_val(es, "terrain"@));
        let ncr = dec_opt_int(first_val(es, "num_clients"@));
        let mcr = dec_opt_int(first_val(es, "max_clients"@));
        let nbr = dec_opt_int(first_val(es, "num_bots"@));
        let scr = dec_opt_bool(first_val(es, "secure"@));
        let pir = dec_opt_int(first_val(es, "ping"@));
        let pyr = dec_players(first_val(es, "players"@));
        if pr is Err {
            Err(pr->Err_0)
        } else if sr is Err {
            Err(sr->Err_0)
        } else if cr is Err {
            Err(cr->Err_0)
        } else if rr is Err {
            Err(rr->Err_0)
        } else if nmr is Err {
            Err(nmr->Err_0)
        } else if npr is Err {
            Err(npr->Err_0)
        } else if mor is Err {
            Err(mor->Err_0)
        } else if gtr is Err {
            Err(gtr->Err_0)
        } else if ter is Err {
            Err(ter->Err_0)
        } else if ncr is Err {
            Err(ncr->Err_0)
        } else if mcr is Err {
            Err(mcr->Err_0)
        } else if nbr is Err {
            Err(nbr->Err_0)
        } else if scr is Err {
            Err(scr->Err_0)
        } else if pir is Err {
            Err(pir->Err_0)
        } else if pyr is Err {
            Err(pyr->Err_0)
        } else {
            Ok(
                ServerV {
                    addr: id,
                    protocol: pr->Ok_0,
                    status: sr->Ok_0,
                    country: cr->Ok_0,
                    rules: rr->Ok_0,
                    name: nmr->Ok_0,
                    need_pass: npr->Ok_0,
                    mod_name: mor->Ok_0,
                    game_type: gtr->Ok_0,
                    terrain: ter->Ok_0,
                    num_clients: ncr->Ok_0,
                    max_clients: mcr->Ok_0,
                    num_bots: nbr->Ok_0,
                    secure: scr->Ok_0,
                    ping: pir->Ok_0,
                    players: pyr->Ok_0,
                },
            )
        }
    }
}

/// What decoding a tree returns: only an object can be a record.
pub open spec fn spec_decode(v: JVal) -> Result<ServerV, DecodeError> {
    match v {
        JVal::Obj(es) => spec_decode_obj(es),
        _ => Err(DecodeError::TypeMismatch),
    }
}

fn conv_identity(host: Option<Json>, addr: Option<Json>) -> (r: Result<Identity, DecodeError>)
    ensures
        (match r {
            Ok(id) => dec_identity(opt_jview(host), opt_jview(addr)) == Ok::<
                IdentityV,
                DecodeError,
            >(id@),
            Err(e) => dec_identity(opt_jview(host), opt_jview(addr)) == Err::<
                IdentityV,
                DecodeError,
            >(e),
        }),
{
    match host {
        Some(Json::Str(h)) => Ok(Identity::Host(h)),
        Some(_) => Err(DecodeError::TypeMismatch),
        None => match addr {
            Some(Json::Str(a)) => Ok(Identity::Addr(a)),
            Some(_) => Err(DecodeError::TypeMismatch),
            None => Err(DecodeError::MissingAddress),
        },
    }
}

fn conv_protocol(id: &Identity, o: Option<Json>) -> (r: Result<Option<Protocol>, DecodeError>)
    ensures
        (match r {
            Ok(p) => dec_protocol(id@, opt_jview(o)) == Ok::<Option<Protocol>, DecodeError>(p),
            Err(e) => dec_protocol(id@, opt_jview(o)) == Err::<Option<Protocol>, DecodeError>(e),
        }),
{
    match id {
        Identity::Addr(_) => Ok(None),
        Identity::Host(_) => match o {
            None => Ok(Some(Protocol::Unspecified)),
            Some(Json::Str(t)) => match protocol_parse(t.as_str()) {
                Some(p) => Ok(Some(p)),
                None => Err(DecodeError::UnknownTag),
            },
            Some(_) => Err(DecodeError::TypeMismatch),
        },
    }
}

fn conv_status(o: Option<Json>) -> (r: Result<Status, DecodeError>)
    ensures
        (match r {
            Ok(st) => dec_status(opt_jview(o)) == Ok::<Status, DecodeError>(st),
            Err(e) => dec_status(opt_jview(o)) == Err::<Status, DecodeError>(e),
        }),
{
    match o {
        None => Ok(Status::Unspecified),
        Some(Json::Str(t)) => match status_parse(t.as_str()) {
            Some(st) => Ok(st),
            None => Err(DecodeError::UnknownTag),
        },
        Some(_) => Err(DecodeError::TypeMismatch),
    }
}

fn conv_country(o: Option<Json>) -> (r: Result<Country, DecodeError>)
    ensures
        (match r {
            Ok(c) => dec_country(opt_jview(o)) == Ok::<Seq<char>, DecodeError>(c@),
            Err(e) => dec_country(opt_jview(o)) == Err::<Seq<char>, DecodeError>(e),
        }),
{
    match o {
        None => Ok(Country::default()),
        Some(Json::Str(c)) => Ok(Country::decode(c.as_str())),
        Some(_) => Err(DecodeError::TypeMismatch),
    }
}

fn conv_rules(o: Option<Json>) -> (r: Result<Vec<(String, Json)>, DecodeError>)
    ensures
        (match r {
            Ok(m) => dec_rules(opt_jview(o)) == Ok::<Seq<(Seq<char>, JVal)>, DecodeError>(
                entries_view(m@),
            ),
            Err(e) => dec_rules(opt_jview(o)) == Err::<Seq<(Seq<char>, JVal)>, DecodeError>(e),
        }),
{
    match o {
        None => {
            let m: Vec<(String, Json)> = Vec::new();
            proof {
                assert(entries_view(m@) =~= Seq::<(Seq<char>, JVal)>::empty());
            }
            Ok(m)
        },
        Some(Json::Obj(m)) => Ok(m),
        Some(_) => Err(DecodeError::TypeMismatch),
    }
}

fn conv_opt_str(o: Option<Json>) -> (r: Result<Option<String>, DecodeError>)
    ensures
        (match r {
            Ok(s) => dec_opt_str(opt_jview(o)) == Ok::<Option<Seq<char>>, DecodeError>(
                opt_str_view(s),
            ),
            Err(e) => dec_opt_str(opt_jview(o)) == Err::<Option<Seq<char>>, DecodeError>(e),
        }),
{
    match o {
        None => Ok(None),
        Some(Json::Null) => Ok(None),
        Some(Json::Str(s)) => Ok(Some(s)),
        Some(_) => Err(DecodeError::TypeMismatch),
    }
}

fn conv_opt_int(o: Option<Json>) -> (r: Result<Option<i64>, DecodeError>)
    ensures
        (match r {
            Ok(n) => dec_opt_int(opt_jview(o)) == Ok::<Option<int>, DecodeError>(opt_int_view(n)),
            Err(e) => dec_opt_int(opt_jview(o)) == Err::<Option<int>, DecodeError>(e),
        }),
{
    match o {
        None => Ok(None),
        Some(Json::Null) => Ok(None),
        Some(Json::Int(n)) => Ok(Some(n)),
        Some(_) => Err(DecodeError::TypeMismatch),
    }
}

fn conv_opt_bool(o: Option<Json>) -> (r: Result<Option<bool>, DecodeError>)
    ensures
        (match r {
            Ok(b) => dec_opt_bool(opt_jview(o)) == Ok::<Option<bool>, DecodeError>(b),
            Err(e) => dec_opt_bool(opt_jview(o)) == Err::<Option<bool>, DecodeError>(e),
        }),
{
    match o {
        None => Ok(None),
        Some(Json::Null) => Ok(None),
        Some(Json::Bool(b)) => Ok(Some(b)),
        Some(_) => Err(DecodeError::TypeMismatch),
    }
}

#[verifier::rlimit(100)]
fn conv_player(j: Json) -> (r: Result<Player, DecodeError>)
    ensures
        (match r {
            Ok(p) => dec_player(j@) == Ok::<PlayerV, DecodeError>(p@),
            Err(e) => dec_player(j@) == Err::<PlayerV, DecodeError>(e),
        }),
{
    let ghost jv0 = j@;
    match j {
        Json::Obj(entries) => {
            let ghost es0 = entries@;
            let ghost ev0 = entries_view(entries@);
            proof {
                assert(jv0 == jview(Json::Obj(entries)));
                assert(jv0 == JVal::Obj(ev0));
            }
            let mut rest = entries;
            let mut f_name: Option<Json> = None;
            let mut f_ping: Option<Json> = None;
            let mut f_info: Option<Json> = None;
            proof {
                assert(es0.take(es0.len() as int) =~= es0);
                assert(ev0.skip(es0.len() as int) =~= Seq::<(Seq<char>, JVal)>::empty());
            }
            while rest.len() > 0
                invariant
                    rest@ == es0.take(rest@.len() as int),
                    rest@.len() <= es0.len(),
                    ev0 == entries_view(es0),
                    opt_jview(f_name) == first_val(ev0.skip(rest@.len() as int), "name"@),
                    opt_jview(f_ping) == first_val(ev0.skip(rest@.len() as int), "ping"@),
                    opt_jview(f_info) == first_val(ev0.skip(rest@.len() as int), "info"@),
                decreases rest@.len(),
            {
                let ghost n = rest@.len() as int;
                let e = rest.pop().unwrap();
                proof {
                    assert(rest@ =~= es0.take(n - 1));
                    assert(e == es0[n - 1]);
                    assert(ev0.skip(n - 1)[0] == (e.0@, jview(e.1)));
                    assert(ev0.skip(n - 1).skip(1) =~= ev0.skip(n));
                    lemma_keys_distinct();
                }
                let (k, val) = e;
                if str_eqs(k.as_str(), "name") {
                    f_name = Some(val);
                } else if str_eqs(k.as_str(), "ping") {
                    f_ping = Some(val);
                } else if str_eqs(k.as_str(), "info") {
                    f_info = Some(val);
                }
            }
            proof {
                assert(ev0.skip(0) =~= ev0);
            }
            let name = match f_name {
                Some(Json::Str(s)) => s,
                Some(_) => {
                    return Err(DecodeError::TypeMismatch);
                },
                None => {
                    return Err(DecodeError::MissingField);
                },
            };
            let ping = match conv_opt_int(f_ping) {
                Ok(x) => x,
                Err(e) => {
                    return Err(e);
                },
            };
            let info = match f_info {
                Some(Json::Obj(m)) => m,
                Some(_) => {
                    return Err(DecodeError::TypeMismatch);
                },
                None => {
                    return Err(DecodeError::MissingField);
                },
            };
            Ok(Player { name, ping, info })
        },
        _ => Err(DecodeError::TypeMismatch),
    }
}

proof fn lemma_players_ok(av: Seq<JVal>, pv: Seq<PlayerV>)
    requires
        av.len() == pv.len(),
        forall|i: int| 0 <= i < av.len() ==> dec_player(av[i]) == Ok::<PlayerV, DecodeError>(
            pv[i],
        ),
    ensures
        dec_players_seq(av) == Ok::<Seq<PlayerV>, DecodeError>(pv),
    decreases av.len(),
{
    if av.len() == 0 {
        assert(pv =~= Seq::<PlayerV>::empty());
    } else {
        lemma_players_ok(av.skip(1), pv.skip(1));
        assert(pv =~= seq![pv[0]] + pv.skip(1));
    }
}

proof fn lemma_players_err(av: Seq<JVal>, k: int, e: DecodeError)
    requires
        0 <= k < av.len(),
        forall|i: int| 0 <= i < k ==> dec_player(av[i]) is Ok,
        dec_player(av[k]) == Err::<PlayerV, DecodeError>(e),
    ensures
        dec_players_seq(av) == Err::<Seq<PlayerV>, DecodeError>(e),
    decreases k,
{
    if k > 0 {
        assert(av.skip(1)[k - 1] == av[k]);
        lemma_players_err(av.skip(1), k - 1, e);
    }
}

#[verifier::loop_isolation(false)]
fn conv_players(o: Option<Json>) -> (r: Result<Option<Vec<Player>>, DecodeError>)
    ensures
        (match r {
            Ok(ps) => dec_players(opt_jview(o)) == Ok::<Option<Seq<PlayerV>>, DecodeError>(
                opt_players_view(ps),
            ),
            Err(e) => dec_players(opt_jview(o)) == Err::<Option<Seq<PlayerV>>, DecodeError>(e),
        }),
{
    let ghost ov = opt_jview(o);
    match o {
        None => Ok(None),
        Some(Json::Null) => Ok(None),
        Some(Json::Arr(elems)) => {
            let ghost j0 = elems@;
            let ghost av = elems_view(elems@);
            proof {
                assert(ov == Some(jview(Json::Arr(elems))));
                assert(ov == Some(JVal::Arr(av)));
            }
            let mut rest = elems;
            let mut out: Vec<Player> = Vec::new();
            proof {
                assert(j0.skip(0) =~= j0);
            }
            while rest.len() > 0
                invariant
                    out@.len() + rest@.len() == j0.len(),
                    av == elems_view(j0),
                    ov == Some(JVal::Arr(av)),
                    rest@ == j0.skip(out@.len() as int),
                    forall|i: int| 0 <= i < out@.len() ==> dec_player(av[i]) == Ok::<
                        PlayerV,
                        DecodeError,
                    >(out@[i]@),
                decreases rest@.len(),
            {
                let ghost k = out@.len() as int;
                let jv = rest.remove(0);
                proof {
                    assert(rest@ =~= j0.skip(k + 1));
                    assert(jv == j0[k]);
                    assert(jview(jv) == av[k]);
                }
                match conv_player(jv) {
                    Ok(p) => out.push(p),
                    Err(e) => {
                        proof {
                            lemma_players_err(av, k, e);
                        }
                        return Err(e);
                    },
                }
            }
            proof {
                assert(players_view(out@).len() == av.len());
                lemma_players_ok(av, players_view(out@));
            }
            Ok(Some(out))
        },
        Some(_) => Err(DecodeError::TypeMismatch),
    }
}

#[verifier::rlimit(100)]
fn decode_obj(entries: Vec<(String, Json)>) -> (r: Result<Server, DecodeError>)
    ensures
        (match r {
            Ok(srv) => spec_decode_obj(entries_view(entries@)) == Ok::<ServerV, DecodeError>(
                srv@,
            ),
            Err(e) => spec_decode_obj(entries_view(entries@)) == Err::<ServerV, DecodeError>(e),
        }),
{
    let ghost es0 = entries@;
    let ghost ev0 = entries_view(entries@);
    let mut rest = entries;
    let mut f_host: Option<Json> = None;
    let mut f_addr: Option<Json> = None;
    let mut f_protocol: Option<Json> = None;
    let mut f_status: Option<Json> = None;
    let mut f_country: Option<Json> = None;
    let mut f_rules: Option<Json> = None;
    let mut f_name: Option<Json> = None;
    let mut f_need_pass: Option<Json> = None;
    let mut f_mod_name: Option<Json> = None;
    let mut f_game_type: Option<Json> = None;
    let mut f_terrain: Option<Json> = None;
    let mut f_num_clients: Option<Json> = None;
    let mut f_max_clients: Option<Json> = None;
    let mut f_num_bots: Option<Json> = None;
    let mut f_secure: Option<Json> = None;
    let mut f_ping: Option<Json> = None;
    let mut f_players: Option<Json> = None;
    proof {
        assert(es0.take(es0.len() as int) =~= es0);
        assert(ev0.skip(es0.len() as int) =~= Seq::<(Seq<char>, JVal)>::empty());
    }
    while rest.len() > 0
        invariant
            rest@ == es0.take(rest@.len() as int),
            rest@.len() <= es0.len(),
            ev0 == entries_view(es0),
            opt_jview(f_host) == first_val(ev0.skip(rest@.len() as int), "host"@),
            opt_jview(f_addr) == first_val(ev0.skip(rest@.len() as int), "addr"@),
            opt_jview(f_protocol) == first_val(ev0.skip(rest@.len() as int), "protocol"@),
            opt_jview(f_status) == first_val(ev0.skip(rest@.len() as int), "status"@),
            opt_jview(f_country) == first_val(ev0.skip(rest@.len() as int), "country"@),
            opt_jview(f_rules) == first_val(ev0.skip(rest@.len() as int), "rules"@),
            opt_jview(f_name) == first_val(ev0.skip(rest@.len() as int), "name"@),
            opt_jview(f_need_pass) == first_val(ev0.skip(rest@.len() as int), "need_pass"@),
            opt_jview(f_mod_name) == first_val(ev0.skip(rest@.len() as int), "mod_name"@),
            opt_jview(f_game_type) == first_val(ev0.skip(rest@.len() as int), "game_type"@),
            opt_jview(f_terrain) == first_val(ev0.skip(rest@.len() as int), "terrain"@),
            opt_jview(f_num_clients) == first_val(ev0.skip(rest@.len() as int), "num_clients"@),
            opt_jview(f_max_clients) == first_val(ev0.skip(rest@.len() as int), "max_clients"@),
            opt_jview(f_num_bots) == first_val(ev0.skip(rest@.len() as int), "num_bots"@),
            opt_jview(f_secure) == first_val(ev0.skip(rest@.len() as int), "secure"@),
            opt_jview(f_ping) == first_val(ev0.skip(rest@.len() as int), "ping"@),
            opt_jview(f_players) == first_val(ev0.skip(rest@.len() as int), "players"@),
        decreases rest@.len(),
    {
        let ghost n = rest@.len() as int;
        let e = rest.pop().unwrap();
        proof {
            assert(rest@ =~= es0.take(n - 1));
            assert(e == es0[n - 1]);
            assert(ev0.skip(n - 1)[0] == (e.0@, jview(e.1)));
            assert(ev0.skip(n - 1).skip(1) =~= ev0.skip(n));
            lemma_keys_distinct();
        }
        let (k, val) = e;
        if str_eqs(k.as_str(), "host") {
            f_host = Some(val);
        } else if str_eqs(k.as_str(), "addr") {
            f_addr = Some(val);
        } else if str_eqs(k.as_str(), "protocol") {
            f_protocol = Some(val);
        } else if str_eqs(k.as_str(), "status") {
            f_status = Some(val);
        } else if str_eqs(k.as_str(), "country") {
            f_country = Some(val);
        } else if str_eqs(k.as_str(), "rules") {
            f_rules = Some(val);
        } else if str_eqs(k.as_str(), "name") {
            f_name = Some(val);
        } else if str_eqs(k.as_str(), "need_pass") {
            f_need_pass = Some(val);
        } else if str_eqs(k.as_str(), "mod_name") {
            f_mod_name = Some(val);
        } else if str_eqs(k.as_str(), "game_type") {
            f_game_type = Some(val);
        } else if str_eqs(k.as_str(), "terrain") {
            f_terrain = Some(val);
        } else if str_eqs(k.as_str(), "num_clients") {
            f_num_clients = Some(val);
        } else if str_eqs(k.as_str(), "max_clients") {
            f_max_clients = Some(val);
        } else if str_eqs(k.as_str(), "num_bots") {
            f_num_bots = Some(val);
        } else if str_eqs(k.as_str(), "secure") {
            f_secure = Some(val);
        } else if str_eqs(k.as_str(), "ping") {
            f_ping = Some(val);
        } else if str_eqs(k.as_str(), "players") {
            f_players = Some(val);
        }
    }
    proof {
        assert(ev0.skip(0) =~= ev0);
    }
    let addr = match conv_identity(f_host, f_addr) {
        Ok(x) => x,
        Err(e) => {
            return Err(e);
        },
    };
    let protocol = match conv_protocol(&addr, f_protocol) {
        Ok(x) => x,
        Err(e) => {
            return Err(e);
        },
    };
    let status = match conv_status(f_status) {
        Ok(x) => x,
        Err(e) => {
            return Err(e);
        },
    };
    let country = match conv_country(f_country) {
        Ok(x) => x,
        Err(e) => {
            return Err(e);
        },
    };
    let rules = match conv_rules(f_rules) {
        Ok(x) => x,
        Err(e) => {
            return Err(e);
        },
    };
    let name = match conv_opt_str(f_name) {
        Ok(x) => x,
        Err(e) => {
            return Err(e);
        },
    };
    let need_pass = match conv_opt_bool(f_need_pass) {
        Ok(x) => x,
        Err(e) => {
            return Err(e);
        },
    };
    let mod_name = match conv_opt_str(f_mod_name) {
        Ok(x) => x,
        Err(e) => {
            return Err(e);
        },
    };
    let game_type = match conv_opt_str(f_game_type) {
        Ok(x) => x,
        Err(e) => {
            return Err(e);
        },
    };
    let terrain = match conv_opt_str(f_terrain) {
        Ok(x) => x,
        Err(e) => {
            return Err(e);
        },
    };
    let num_clients = match conv_opt_int(f_num_clients) {
        Ok(x) => x,
        Err(e) => {
            return Err(e);
        },
    };
    let max_clients = match conv_opt_int(f_max_clients) {
        Ok(x) => x,
        Err(e) => {
            return Err(e);
        },
    };
    let num_bots = match conv_opt_int(f_num_bots) {
        Ok(x) => x,
        Err(e) => {
            return Err(e);
        },
    };
    let secure = match conv_opt_bool(f_secure) {
        Ok(x) => x,
        Err(e) => {
            return Err(e);
        },
    };
    let ping = match conv_opt_int(f_ping) {
        Ok(x) => x,
        Err(e) => {
            return Err(e);
        },
    };
    let players = match conv_players(f_players) {
        Ok(x) => x,
        Err(e) => {
            return Err(e);
        },
    };
    Ok(
        Server {
            addr,
            protocol,
            status,
            country,
            rules,
            name,
            need_pass,
            mod_name,
            game_type,
            terrain,
            num_clients,
            max_clients,
            num_bots,
            secure,
            ping,
            players,
        },
    )
}

/// Decode a record from the structured tree. Fail-fast: the first offending
/// field aborts the whole record; no partial records are produced.
pub fn decode(v: Json) -> (r: Result<Server, DecodeError>)
    ensures
        (match r {
            Ok(srv) => spec_decode(v@) == Ok::<ServerV, DecodeError>(srv@),
            Err(e) => spec_decode(v@) == Err::<ServerV, DecodeError>(e),
        }),
{
    let ghost vv = v@;
    match v {
        Json::Obj(entries) => {
            proof {
                assert(vv == jview(Json::Obj(entries)));
                assert(vv == JVal::Obj(entries_view(entries@)));
            }
            decode_obj(entries)
        },
        _ => Err(DecodeError::TypeMismatch),
    }
}

/// Looking a key up in a one-entry list.
pub broadcast proof fn lemma_first_val_single(k1: Seq<char>, v: JVal, key: Seq<char>)
    ensures
        #[trigger] first_val(seq![(k1, v)], key) == (if k1 == key {
            Some(v)
        } else {
            None::<JVal>
        }),
{
    reveal_with_fuel(first_val, 2);
    assert(seq![(k1, v)].skip(1) =~= Seq::<(Seq<char>, JVal)>::empty());
}

/// Looking a key up in an optional field's contribution.
pub broadcast proof fn lemma_first_val_opt_entry(k1: Seq<char>, vo: Option<JVal>, key: Seq<char>)
    ensures
        #[trigger] first_val(opt_entry(k1, vo), key) == (if vo is Some && k1 == key {
            Some(vo->0)
        } else {
            None::<JVal>
        }),
{
    reveal_with_fuel(first_val, 2);
    match vo {
        Some(v) => {
            assert(seq![(k1, v)].skip(1) =~= Seq::<(Seq<char>, JVal)>::empty());
        },
        None => {
        },
    }
}

/// Law: omission symmetry, encoding half. A record with an absent optional
/// field encodes to an object in which that key is absent altogether.
#[verifier::rlimit(100)]
pub proof fn lemma_encode_omits_absent(sv: ServerV)
    ensures
        sv.name is None ==> first_val(spec_server_entries(sv), "name"@) is None,
        sv.need_pass is None ==> first_val(spec_server_entries(sv), "need_pass"@) is None,
        sv.mod_name is None ==> first_val(spec_server_entries(sv), "mod_name"@) is None,
        sv.game_type is None ==> first_val(spec_server_entries(sv), "game_type"@) is None,
        sv.terrain is None ==> first_val(spec_server_entries(sv), "terrain"@) is None,
        sv.num_clients is None ==> first_val(spec_server_entries(sv), "num_clients"@) is None,
        sv.max_clients is None ==> first_val(spec_server_entries(sv), "max_clients"@) is None,
        sv.num_bots is None ==> first_val(spec_server_entries(sv), "num_bots"@) is None,
        sv.secure is None ==> first_val(spec_server_entries(sv), "secure"@) is None,
        sv.ping is None ==> first_val(spec_server_entries(sv), "ping"@) is None,
        sv.players is None ==> first_val(spec_server_entries(sv), "players"@) is None,
{
    broadcast use crate::json::lemma_first_val_append, lemma_first_val_single,
        lemma_first_val_opt_entry;

    lemma_keys_distinct();
}

/// Law: omission symmetry, decoding half. An object without an optional
/// field's key decodes to a record with that field absent.
#[verifier::rlimit(100)]
pub proof fn lemma_decode_absent(es: Seq<(Seq<char>, JVal)>, sv: ServerV)
    requires
        spec_decode_obj(es) == Ok::<ServerV, DecodeError>(sv),
    ensures
        first_val(es, "name"@) is None ==> sv.name is None,
        first_val(es, "need_pass"@) is None ==> sv.need_pass is None,
        first_val(es, "mod_name"@) is None ==> sv.mod_name is None,
        first_val(es, "game_type"@) is None ==> sv.game_type is None,
        first_val(es, "terrain"@) is None ==> sv.terrain is None,
        first_val(es, "num_clients"@) is None ==> sv.num_clients is None,
        first_val(es, "max_clients"@) is None ==> sv.max_clients is None,
        first_val(es, "num_bots"@) is None ==> sv.num_bots is None,
        first_val(es, "secure"@) is None ==> sv.secure is None,
        first_val(es, "ping"@) is None ==> sv.ping is None,
        first_val(es, "players"@) is None ==> sv.players is None,
{
}

/// Law: defaulting. A record decoded from an object without `status`,
/// `country` or `rules` entries carries their documented defaults: the
/// unspecified status, the unspecified country, the empty rule mapping.
pub proof fn lemma_defaulting(es: Seq<(Seq<char>, JVal)>, sv: ServerV)
    requires
        spec_decode_obj(es) == Ok::<ServerV, DecodeError>(sv),
        first_val(es, "status"@) is None,
        first_val(es, "country"@) is None,
        first_val(es, "rules"@) is None,
    ensures
        sv.status == Status::Unspecified,
        sv.country == Seq::<char>::empty(),
        sv.rules == Seq::<(Seq<char>, JVal)>::empty(),
{
}

/// Law: strict tags beside the fallback country. A status entry with a tag
/// outside the closed set fails the whole record, as does a protocol entry
/// in the host profile; a country entry that holds text never fails, however
/// unknown its code.
pub proof fn lemma_strict_tags(es: Seq<(Seq<char>, JVal)>, t: Seq<char>, c: Seq<char>)
    ensures
        (first_val(es, "status"@) == Some(JVal::Str(t)) && status_from_tag(t) is None)
            ==> spec_decode_obj(es) is Err,
        ((dec_identity(first_val(es, "host"@), first_val(es, "addr"@)) matches Ok(
            IdentityV::Host(_),
        )) && first_val(es, "protocol"@) == Some(JVal::Str(t)) && protocol_from_tag(t) is None)
            ==> spec_decode_obj(es) is Err,
        first_val(es, "country"@) == Some(JVal::Str(c)) ==> dec_country(
            first_val(es, "country"@),
        ) is Ok,
{
}

} // verus!
