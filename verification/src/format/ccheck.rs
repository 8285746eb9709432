//! The persisted record format and the streaming result sink: accepted
//! results are serialized as one JSON array of records, append-only.

use vstd::prelude::*;
use crate::adapters::{
    base64_encode, base64_of, favicon_bytes, sample_players, CCheckChat, CCheckResponse,
};
use crate::format::json::{
    chat_data_eq, lemma_chat_unique, lemma_json_string_unique, push_json_chat, push_json_string,
    spec_json_chat, spec_json_string,
};
use crate::pool::Target;
use crate::text::{
    chars_to_string, is_digit_char, lemma_cancel_prefix, lemma_dec_int_delimited,
    lemma_dec_nat_delimited, push_dec_i32, push_dec_usize, push_str_chars, spec_dec_int,
    spec_dec_nat,
};

verus! {

/// One record of the result sink: the probed endpoint, what it reported,
/// and a per-player observation timestamp taken at persistence time.
pub struct Server {
    pub version: String,
    pub protocol: i32,
    pub ip: Target,
    pub players: Vec<Player>,
    /// The favicon bytes in their base64 rendering.
    pub favicon: String,
    pub motd: CCheckChat,
}

/// One sampled player as persisted: when it was last observed, its name and
/// its id.
pub struct Player {
    pub last_online: usize,
    pub username: String,
    pub uuid: String,
}

/// Relies on time::OffsetDateTime::now_utc and unix_timestamp: the clock's
/// reading is not a function of the program's inputs, so nothing is stated
/// of the result.
#[verifier::external_body]
fn unix_timestamp_now() -> usize {
    time::OffsetDateTime::now_utc().unix_timestamp() as usize
}

/// The JSON object for one persisted player.
pub open spec fn spec_json_player(p: Player) -> Seq<char> {
    "{\"last_online\":"@ + spec_dec_nat(p.last_online as nat) + ",\"username\":"@
        + spec_json_string(p.username@) + ",\"uuid\":"@ + spec_json_string(p.uuid@) + "}"@
}

/// The comma-separated encodings of the players of `l` from `from` on.
pub open spec fn spec_json_players(l: Seq<Player>, from: int) -> Seq<char>
    decreases l.len() - from,
{
    if from < 0 || from >= l.len() {
        Seq::empty()
    } else {
        spec_json_player(l[from]) + spec_json_players_tail(l, from + 1)
    }
}

/// The encodings of the players of `l` from `from` on, each preceded by the
/// comma that separates it from its predecessor.
pub open spec fn spec_json_players_tail(l: Seq<Player>, from: int) -> Seq<char>
    decreases l.len() - from,
{
    if from < 0 || from >= l.len() {
        Seq::empty()
    } else {
        seq![','] + spec_json_player(l[from]) + spec_json_players_tail(l, from + 1)
    }
}

/// The opening part of a record: version, protocol, endpoint, and the
/// opening delimiter of the player array.
pub open spec fn spec_server_head(s: Server) -> Seq<char> {
    "{\"version\":"@ + spec_json_string(s.version@) + ",\"protocol\":"@ + spec_dec_int(
        s.protocol as int,
    ) + ",\"ip\":["@ + spec_json_string(s.ip.host@) + seq![','] + spec_dec_nat(s.ip.port as nat)
        + "],\"players\":["@
}

/// The closing part of a record: favicon, description, closing delimiters.
pub open spec fn spec_server_tail(s: Server) -> Seq<char> {
    "],\"favicon\":"@ + spec_json_string(s.favicon@) + ",\"motd\":"@ + spec_json_chat(s.motd)
        + "}"@
}

/// The JSON object for one record.
pub open spec fn spec_json_server(s: Server) -> Seq<char> {
    spec_server_head(s) + spec_json_players(s.players@, 0) + spec_server_tail(s)
}

/// The comma-separated encodings of the records of `rs` from `from` on.
pub open spec fn spec_join_servers(rs: Seq<Server>, from: int) -> Seq<char>
    decreases rs.len() - from,
{
    if from < 0 || from >= rs.len() {
        Seq::empty()
    } else {
        spec_json_server(rs[from]) + spec_join_servers_tail(rs, from + 1)
    }
}

/// The encodings of the records of `rs` from `from` on, each preceded by
/// the comma that separates it from its predecessor.
pub open spec fn spec_join_servers_tail(rs: Seq<Server>, from: int) -> Seq<char>
    decreases rs.len() - from,
{
    if from < 0 || from >= rs.len() {
        Seq::empty()
    } else {
        seq![','] + spec_json_server(rs[from]) + spec_join_servers_tail(rs, from + 1)
    }
}

/// The full byte stream for a record sequence: one JSON array holding the
/// records' encodings in order, separated by commas.
pub open spec fn spec_sink_stream(rs: Seq<Server>) -> Seq<char> {
    "["@ + spec_join_servers(rs, 0) + "]"@
}

/// Appending one record extends the joined encodings by a separator (after
/// the first record) and the record's encoding.
proof fn lemma_join_tail_snoc(rs: Seq<Server>, s: Server, f: int)
    requires
        0 <= f <= rs.len(),
    ensures
        spec_join_servers_tail(rs.push(s), f) == spec_join_servers_tail(rs, f) + (seq![',']
            + spec_json_server(s)),
    decreases rs.len() - f,
{
    if f == rs.len() {
        assert(rs.push(s)[f] == s);
        assert(spec_join_servers_tail(rs.push(s), f + 1) == Seq::<char>::empty());
        assert(spec_join_servers_tail(rs, f) == Seq::<char>::empty());
        assert(spec_join_servers_tail(rs.push(s), f) =~= spec_join_servers_tail(rs, f) + (
        seq![','] + spec_json_server(s)));
    } else {
        assert(rs.push(s)[f] == rs[f]);
        lemma_join_tail_snoc(rs, s, f + 1);
        assert(spec_join_servers_tail(rs.push(s), f) =~= spec_join_servers_tail(rs, f) + (
        seq![','] + spec_json_server(s)));
    }
}

/// Appending one record extends the joined encodings by a separator (after
/// the first record) and the record's encoding.
proof fn lemma_join_snoc(rs: Seq<Server>, s: Server)
    ensures
        spec_join_servers(rs.push(s), 0) == if rs.len() == 0 {
            spec_json_server(s)
        } else {
            spec_join_servers(rs, 0) + (seq![','] + spec_json_server(s))
        },
{
    if rs.len() == 0 {
        assert(spec_join_servers(rs.push(s), 0) =~= spec_json_server(s));
    } else {
        assert(rs.push(s)[0] == rs[0]);
        lemma_join_tail_snoc(rs, s, 1);
        assert(spec_join_servers(rs.push(s), 0) =~= spec_join_servers(rs, 0) + (seq![',']
            + spec_json_server(s)));
    }
}

/// Appends the JSON object for player `p` to `out`.
#[verifier::rlimit(30)]
fn push_json_player(p: &Player, out: &mut Vec<char>)
    ensures
        final(out)@ == old(out)@ + spec_json_player(*p),
{
    push_str_chars("{\"last_online\":", out);
    push_dec_usize(p.last_online, out);
    push_str_chars(",\"username\":", out);
    push_json_string(p.username.as_str(), out);
    push_str_chars(",\"uuid\":", out);
    push_json_string(p.uuid.as_str(), out);
    push_str_chars("}", out);
    proof {
        assert(out@ =~= old(out)@ + spec_json_player(*p));
    }
}

/// Appends the opening part of record `s` to `out`.
#[verifier::rlimit(30)]
fn push_server_head(s: &Server, out: &mut Vec<char>)
    ensures
        final(out)@ == old(out)@ + spec_server_head(*s),
{
    push_str_chars("{\"version\":", out);
    push_json_string(s.version.as_str(), out);
    push_str_chars(",\"protocol\":", out);
    push_dec_i32(s.protocol, out);
    push_str_chars(",\"ip\":[", out);
    push_json_string(s.ip.host.as_str(), out);
    out.push(',');
    push_dec_usize(s.ip.port as usize, out);
    push_str_chars("],\"players\":[", out);
    proof {
        assert(out@ =~= old(out)@ + spec_server_head(*s));
    }
}

/// Appends the closing part of record `s` to `out`.
#[verifier::rlimit(30)]
fn push_server_tail(s: &Server, out: &mut Vec<char>)
    ensures
        final(out)@ == old(out)@ + spec_server_tail(*s),
{
    push_str_chars("],\"favicon\":", out);
    push_json_string(s.favicon.as_str(), out);
    push_str_chars(",\"motd\":", out);
    push_json_chat(&s.motd, out);
    push_str_chars("}", out);
    proof {
        assert(out@ =~= old(out)@ + spec_server_tail(*s));
    }
}

/// Appends the JSON object for record `s` to `out`.
pub fn push_json_server(s: &Server, out: &mut Vec<char>)
    ensures
        final(out)@ == old(out)@ + spec_json_server(*s),
{
    push_server_head(s, out);
    let ghost mid = out@;
    let mut j: usize = 0;
    while j < s.players.len()
        invariant
            j <= s.players@.len(),
            j == 0 ==> out@ == mid,
            j > 0 ==> out@ + spec_json_players_tail(s.players@, j as int) == mid
                + spec_json_players(s.players@, 0),
        decreases s.players@.len() - j,
    {
        if j > 0 {
            out.push(',');
        }
        push_json_player(&s.players[j], out);
        proof {
            if j == 0 {
                assert(out@ + spec_json_players_tail(s.players@, 1)
                    =~= mid + spec_json_players(s.players@, 0));
            } else {
                assert(out@ + spec_json_players_tail(s.players@, j + 1)
                    =~= mid + spec_json_players(s.players@, 0));
            }
        }
        j = j + 1;
    }
    proof {
        if s.players@.len() > 0 {
            assert(spec_json_players_tail(s.players@, s.players@.len() as int)
                =~= Seq::<char>::empty());
            assert(out@ =~= mid + spec_json_players(s.players@, 0));
        }
    }
    push_server_tail(s, out);
    proof {
        assert(out@ =~= old(out)@ + spec_json_server(*s));
    }
}

/// The persisted record `s` carries endpoint `t` and response `r`: every
/// persisted field reproduced exactly, the favicon as its base64 rendering.
/// The players' observation timestamps are taken at persistence time and
/// are not constrained here.
pub open spec fn record_matches(s: Server, t: Target, r: CCheckResponse) -> bool {
    &&& s.version == r.version
    &&& s.protocol == r.protocol
    &&& s.ip == t
    &&& s.players@.len() == sample_players(r).len()
    &&& forall|i: int|
        0 <= i < s.players@.len() ==> s.players@[i].username == sample_players(r)[i].name
            && s.players@[i].uuid == sample_players(r)[i].id
    &&& s.favicon@ == base64_of(favicon_bytes(r))
    &&& s.motd == r.description
}

impl Server {
    /// Builds the persisted record for an accepted response, stamping each
    /// sampled player with the current time as its last observation.
    pub fn from_resp(resp: CCheckResponse, ip: Target) -> (s: Server)
        ensures
            record_matches(s, ip, resp),
    {
        let now: usize = unix_timestamp_now();
        let mut players: Vec<Player> = Vec::new();
        match &resp.sample {
            Some(ps) => {
                let mut j: usize = 0;
                while j < ps.len()
                    invariant
                        j <= ps@.len(),
                        players@.len() == j,
                        forall|k: int|
                            0 <= k < j ==> players@[k].username == ps@[k].name
                                && players@[k].uuid == ps@[k].id,
                    decreases ps@.len() - j,
                {
                    let p = &ps[j];
                    players.push(
                        Player { last_online: now, username: p.name.clone(), uuid: p.id.clone() },
                    );
                    j = j + 1;
                }
            },
            None => {},
        }
        let favicon: String = match &resp.favicon {
            Some(bytes) => base64_encode(bytes.as_slice()),
            None => {
                let empty: Vec<u8> = Vec::new();
                base64_encode(empty.as_slice())
            },
        };
        Server {
            version: resp.version,
            protocol: resp.protocol,
            ip,
            players,
            favicon,
            motd: resp.description,
        }
    }
}

/// The full set of records held in memory, as read from or written to one
/// file at once.
pub struct CCheckFormat {
    pub servers: Vec<Server>,
}

impl CCheckFormat {
    pub fn new(servers: Vec<Server>) -> (f: CCheckFormat)
        ensures
            f.servers == servers,
    {
        CCheckFormat { servers }
    }

    /// The full stream for the held records, ready to be written out.
    pub fn to_json(&self) -> (s: String)
        ensures
            s@ == spec_sink_stream(self.servers@),
    {
        let mut out: Vec<char> = Vec::new();
        out.push('[');
        proof {
            reveal_strlit("[");
            assert(out@ =~= "["@);
        }
        let ghost mid = out@;
        let mut j: usize = 0;
        while j < self.servers.len()
            invariant
                j <= self.servers@.len(),
                j == 0 ==> out@ == mid,
                j > 0 ==> out@ + spec_join_servers_tail(self.servers@, j as int) == mid
                    + spec_join_servers(self.servers@, 0),
            decreases self.servers@.len() - j,
        {
            if j > 0 {
                out.push(',');
            }
            push_json_server(&self.servers[j], &mut out);
            proof {
                if j == 0 {
                    assert(out@ + spec_join_servers_tail(self.servers@, 1) =~= mid
                        + spec_join_servers(self.servers@, 0));
                } else {
                    assert(out@ + spec_join_servers_tail(self.servers@, j + 1) =~= mid
                        + spec_join_servers(self.servers@, 0));
                }
            }
            j = j + 1;
        }
        proof {
            if self.servers@.len() > 0 {
                assert(spec_join_servers_tail(self.servers@, self.servers@.len() as int)
                    =~= Seq::<char>::empty());
                assert(out@ =~= mid + spec_join_servers(self.servers@, 0));
            }
        }
        out.push(']');
        proof {
            reveal_strlit("]");
            assert(out@ =~= spec_sink_stream(self.servers@));
        }
        chars_to_string(&out)
    }
}

/// The streaming result sink. It owns its destination exclusively: appends
/// are serialized by the exclusive borrow, so record boundaries are never
/// interleaved, and the buffer always holds exactly the stream written so
/// far.
pub struct CCheckFileHandler {
    /// How many records have been appended.
    pub count: usize,
    /// Whether the closing delimiter has been written.
    pub closed: bool,
    /// The full stream written so far.
    pub buf: Vec<char>,
    /// The records appended so far, in order.
    pub records: Ghost<Seq<Server>>,
}

impl CCheckFileHandler {
    /// Well-formed sink state: the running count equals the number of
    /// records appended, and the buffer holds exactly the stream written so
    /// far — the records' encodings joined by commas inside the array
    /// delimiters, the closing one once the sink is closed.
    pub open spec fn wf(self) -> bool {
        &&& self.count == self.records@.len()
        &&& if self.closed {
            self.buf@ == spec_sink_stream(self.records@)
        } else {
            self.buf@ == "["@ + spec_join_servers(self.records@, 0)
        }
    }

    /// Opens the sink: no records yet, the opening array delimiter written.
    pub fn new() -> (h: CCheckFileHandler)
        ensures
            h.wf(),
            h.count == 0,
            !h.closed,
            h.records@ == Seq::<Server>::empty(),
            h.buf@ == "["@,
    {
        let mut buf: Vec<char> = Vec::new();
        buf.push('[');
        proof {
            reveal_strlit("[");
            assert(buf@ =~= "["@);
            assert(buf@ =~= "["@ + spec_join_servers(Seq::<Server>::empty(), 0));
        }
        CCheckFileHandler { count: 0, closed: false, buf, records: Ghost(Seq::empty()) }
    }

    /// Appends one record: serializes it, extends the stream by the comma
    /// separator (after the first record) and the record's encoding, and
    /// advances the running count. Returns the chunk added, so a caller can
    /// forward it to the destination as soon as it is produced.
    pub fn write_resp(&mut self, server: Server) -> (chunk: String)
        requires
            old(self).wf(),
            !old(self).closed,
            old(self).count < usize::MAX,
        ensures
            final(self).wf(),
            !final(self).closed,
            final(self).count == old(self).count + 1,
            final(self).records@ == old(self).records@.push(server),
            chunk@ == if old(self).count == 0 {
                spec_json_server(server)
            } else {
                seq![','] + spec_json_server(server)
            },
            final(self).buf@ == old(self).buf@ + chunk@,
    {
        let mut chunk_v: Vec<char> = Vec::new();
        if self.count > 0 {
            chunk_v.push(',');
        }
        push_json_server(&server, &mut chunk_v);
        let chunk = chars_to_string(&chunk_v);
        self.buf.append(&mut chunk_v);
        self.count = self.count + 1;
        proof {
            let rs = self.records@;
            let rs2 = rs.push(server);
            self.records@ = rs2;
            lemma_join_snoc(rs, server);
            assert(self.buf@ =~= "["@ + spec_join_servers(rs2, 0));
        }
        chunk
    }

    /// Closes the sink: writes the closing array delimiter. The buffer then
    /// holds the full stream for the records appended, and the element count
    /// of that array equals the final count.
    pub fn done(&mut self) -> (chunk: String)
        requires
            old(self).wf(),
            !old(self).closed,
        ensures
            final(self).wf(),
            final(self).closed,
            final(self).count == old(self).count,
            final(self).records@ == old(self).records@,
            chunk@ == "]"@,
            final(self).buf@ == old(self).buf@ + "]"@,
            final(self).buf@ == spec_sink_stream(final(self).records@),
    {
        self.buf.push(']');
        self.closed = true;
        proof {
            reveal_strlit("]");
            assert(self.buf@ =~= old(self).buf@ + "]"@);
            assert(self.buf@ =~= spec_sink_stream(self.records@));
        }
        let mut v: Vec<char> = Vec::new();
        v.push(']');
        let chunk = chars_to_string(&v);
        proof {
            assert(chunk@ =~= "]"@);
        }
        chunk
    }
}


/// The persisted data of two players agree: the observation timestamp, the
/// name and the id.
pub open spec fn player_data_eq(p: Player, q: Player) -> bool {
    &&& p.last_online == q.last_online
    &&& p.username@ == q.username@
    &&& p.uuid@ == q.uuid@
}

/// A player object's encoding, regrouped around what follows it.
#[verifier::rlimit(100)]
proof fn lemma_player_shape(p: Player, r: Seq<char>)
    ensures
        spec_json_player(p) + r == "{\"last_online\":"@ + (spec_dec_nat(p.last_online as nat) + (
        ",\"username\":"@ + (spec_json_string(p.username@) + (",\"uuid\":"@ + (
        spec_json_string(p.uuid@) + ("}"@ + r)))))),
{
    assert(spec_json_player(p) + r =~= "{\"last_online\":"@ + (spec_dec_nat(
        p.last_online as nat,
    ) + (",\"username\":"@ + (spec_json_string(p.username@) + (",\"uuid\":"@ + (
    spec_json_string(p.uuid@) + ("}"@ + r)))))));
}

/// A player object followed by anything is read back unambiguously.
proof fn lemma_player_unique(p1: Player, r1: Seq<char>, p2: Player, r2: Seq<char>)
    requires
        spec_json_player(p1) + r1 == spec_json_player(p2) + r2,
    ensures
        player_data_eq(p1, p2),
        r1 == r2,
{
    reveal_strlit(",\"username\":");
    let y1 = ",\"username\":"@ + (spec_json_string(p1.username@) + (",\"uuid\":"@ + (
    spec_json_string(p1.uuid@) + ("}"@ + r1))));
    let y2 = ",\"username\":"@ + (spec_json_string(p2.username@) + (",\"uuid\":"@ + (
    spec_json_string(p2.uuid@) + ("}"@ + r2))));
    lemma_player_shape(p1, r1);
    lemma_player_shape(p2, r2);
    lemma_cancel_prefix(
        "{\"last_online\":"@,
        spec_dec_nat(p1.last_online as nat) + y1,
        spec_dec_nat(p2.last_online as nat) + y2,
    );
    assert(y1[0] == ',');
    assert(!is_digit_char(y1[0]));
    assert(y2[0] == ',');
    lemma_dec_nat_delimited(p1.last_online as nat, p2.last_online as nat, y1, y2);
    lemma_cancel_prefix(
        ",\"username\":"@,
        spec_json_string(p1.username@) + (",\"uuid\":"@ + (spec_json_string(p1.uuid@) + ("}"@
            + r1))),
        spec_json_string(p2.username@) + (",\"uuid\":"@ + (spec_json_string(p2.uuid@) + ("}"@
            + r2))),
    );
    lemma_json_string_unique(
        p1.username@,
        ",\"uuid\":"@ + (spec_json_string(p1.uuid@) + ("}"@ + r1)),
        p2.username@,
        ",\"uuid\":"@ + (spec_json_string(p2.uuid@) + ("}"@ + r2)),
    );
    lemma_cancel_prefix(
        ",\"uuid\":"@,
        spec_json_string(p1.uuid@) + ("}"@ + r1),
        spec_json_string(p2.uuid@) + ("}"@ + r2),
    );
    lemma_json_string_unique(p1.uuid@, "}"@ + r1, p2.uuid@, "}"@ + r2);
    lemma_cancel_prefix("}"@, r1, r2);
}


/// A comma-separated player list closed by an unescaped `]` is read back
/// unambiguously: same number of players, same persisted data, same
/// remainder.
proof fn lemma_players_region_unique(
    l1: Seq<Player>,
    f1: int,
    r1: Seq<char>,
    l2: Seq<Player>,
    f2: int,
    r2: Seq<char>,
)
    requires
        0 <= f1 <= l1.len(),
        0 <= f2 <= l2.len(),
        spec_json_players(l1, f1) + seq![']'] + r1 == spec_json_players(l2, f2) + seq![']'] + r2,
    ensures
        l1.len() - f1 == l2.len() - f2,
        forall|k: int| 0 <= k < l1.len() - f1 ==> player_data_eq(#[trigger] l1[f1 + k], l2[f2 + k]),
        r1 == r2,
    decreases l1.len() - f1, 0int,
{
    reveal_strlit("{\"last_online\":");
    let la = spec_json_players(l1, f1) + seq![']'] + r1;
    let lb = spec_json_players(l2, f2) + seq![']'] + r2;
    if f1 == l1.len() && f2 == l2.len() {
        assert(r1 =~= la.skip(1));
        assert(r2 =~= lb.skip(1));
    } else if f1 == l1.len() {
        assert(la[0] == ']');
        assert(spec_json_player(l2[f2])[0] == '{');
        assert(lb[0] == '{');
        assert(false);
    } else if f2 == l2.len() {
        assert(lb[0] == ']');
        assert(spec_json_player(l1[f1])[0] == '{');
        assert(la[0] == '{');
        assert(false);
    } else {
        let t1 = spec_json_players_tail(l1, f1 + 1) + (seq![']'] + r1);
        let t2 = spec_json_players_tail(l2, f2 + 1) + (seq![']'] + r2);
        assert(la =~= spec_json_player(l1[f1]) + t1);
        assert(lb =~= spec_json_player(l2[f2]) + t2);
        lemma_player_unique(l1[f1], t1, l2[f2], t2);
        lemma_players_tail_unique(l1, f1 + 1, r1, l2, f2 + 1, r2);
        assert forall|k: int| 0 <= k < l1.len() - f1 implies player_data_eq(
            #[trigger] l1[f1 + k],
            l2[f2 + k],
        ) by {
            if k > 0 {
                assert(player_data_eq(l1[(f1 + 1) + (k - 1)], l2[(f2 + 1) + (k - 1)]));
            }
        }
    }
}

/// The comma-led continuation of a player list closed by an unescaped `]`
/// is read back unambiguously.
proof fn lemma_players_tail_unique(
    l1: Seq<Player>,
    f1: int,
    r1: Seq<char>,
    l2: Seq<Player>,
    f2: int,
    r2: Seq<char>,
)
    requires
        0 <= f1 <= l1.len(),
        0 <= f2 <= l2.len(),
        spec_json_players_tail(l1, f1) + (seq![']'] + r1) == spec_json_players_tail(l2, f2) + (
        seq![']'] + r2),
    ensures
        l1.len() - f1 == l2.len() - f2,
        forall|k: int| 0 <= k < l1.len() - f1 ==> player_data_eq(#[trigger] l1[f1 + k], l2[f2 + k]),
        r1 == r2,
    decreases l1.len() - f1, 1int,
{
    let la = spec_json_players_tail(l1, f1) + (seq![']'] + r1);
    let lb = spec_json_players_tail(l2, f2) + (seq![']'] + r2);
    if f1 == l1.len() && f2 == l2.len() {
        assert(r1 =~= la.skip(1));
        assert(r2 =~= lb.skip(1));
    } else if f1 == l1.len() {
        assert(la[0] == ']');
        assert(lb[0] == ',');
        assert(false);
    } else if f2 == l2.len() {
        assert(lb[0] == ']');
        assert(la[0] == ',');
        assert(false);
    } else {
        assert(la =~= seq![','] + (spec_json_players(l1, f1) + seq![']'] + r1));
        assert(lb =~= seq![','] + (spec_json_players(l2, f2) + seq![']'] + r2));
        lemma_cancel_prefix(
            seq![','],
            spec_json_players(l1, f1) + seq![']'] + r1,
            spec_json_players(l2, f2) + seq![']'] + r2,
        );
        lemma_players_region_unique(l1, f1, r1, l2, f2, r2);
    }
}


/// The opening part of a record, regrouped around what follows it.
#[verifier::rlimit(100)]
proof fn lemma_server_head_shape(s: Server, x: Seq<char>)
    ensures
        spec_server_head(s) + x == "{\"version\":"@ + (spec_json_string(s.version@) + (
        ",\"protocol\":"@ + (spec_dec_int(s.protocol as int) + (",\"ip\":["@ + (
        spec_json_string(s.ip.host@) + (seq![','] + (spec_dec_nat(s.ip.port as nat) + (
        "],\"players\":["@ + x)))))))),
{
    assert(spec_server_head(s) + x =~= "{\"version\":"@ + (spec_json_string(s.version@) + (
    ",\"protocol\":"@ + (spec_dec_int(s.protocol as int) + (",\"ip\":["@ + (
    spec_json_string(s.ip.host@) + (seq![','] + (spec_dec_nat(s.ip.port as nat) + (
    "],\"players\":["@ + x)))))))));
}

/// The opening part of a record followed by anything is read back
/// unambiguously: version, protocol and endpoint are pinned down.
#[verifier::rlimit(100)]
proof fn lemma_server_head_unique(s1: Server, x1: Seq<char>, s2: Server, x2: Seq<char>)
    requires
        spec_server_head(s1) + x1 == spec_server_head(s2) + x2,
    ensures
        s1.version@ == s2.version@,
        s1.protocol == s2.protocol,
        s1.ip.host@ == s2.ip.host@,
        s1.ip.port == s2.ip.port,
        x1 == x2,
{
    reveal_strlit(",\"ip\":[");
    reveal_strlit("],\"players\":[");
    let y1 = ",\"protocol\":"@ + (spec_dec_int(s1.protocol as int) + (",\"ip\":["@ + (
    spec_json_string(s1.ip.host@) + (seq![','] + (spec_dec_nat(s1.ip.port as nat) + (
    "],\"players\":["@ + x1))))));
    let y2 = ",\"protocol\":"@ + (spec_dec_int(s2.protocol as int) + (",\"ip\":["@ + (
    spec_json_string(s2.ip.host@) + (seq![','] + (spec_dec_nat(s2.ip.port as nat) + (
    "],\"players\":["@ + x2))))));
    lemma_server_head_shape(s1, x1);
    lemma_server_head_shape(s2, x2);
    lemma_cancel_prefix(
        "{\"version\":"@,
        spec_json_string(s1.version@) + y1,
        spec_json_string(s2.version@) + y2,
    );
    lemma_json_string_unique(s1.version@, y1, s2.version@, y2);
    let z1 = spec_dec_int(s1.protocol as int) + (",\"ip\":["@ + (spec_json_string(s1.ip.host@)
        + (seq![','] + (spec_dec_nat(s1.ip.port as nat) + ("],\"players\":["@ + x1)))));
    let z2 = spec_dec_int(s2.protocol as int) + (",\"ip\":["@ + (spec_json_string(s2.ip.host@)
        + (seq![','] + (spec_dec_nat(s2.ip.port as nat) + ("],\"players\":["@ + x2)))));
    lemma_cancel_prefix(",\"protocol\":"@, z1, z2);
    let w1 = ",\"ip\":["@ + (spec_json_string(s1.ip.host@) + (seq![','] + (spec_dec_nat(
        s1.ip.port as nat,
    ) + ("],\"players\":["@ + x1))));
    let w2 = ",\"ip\":["@ + (spec_json_string(s2.ip.host@) + (seq![','] + (spec_dec_nat(
        s2.ip.port as nat,
    ) + ("],\"players\":["@ + x2))));
    assert(w1[0] == ',');
    assert(!is_digit_char(w1[0]));
    assert(w2[0] == ',');
    lemma_dec_int_delimited(s1.protocol as int, s2.protocol as int, w1, w2);
    lemma_cancel_prefix(
        ",\"ip\":["@,
        spec_json_string(s1.ip.host@) + (seq![','] + (spec_dec_nat(s1.ip.port as nat) + (
        "],\"players\":["@ + x1))),
        spec_json_string(s2.ip.host@) + (seq![','] + (spec_dec_nat(s2.ip.port as nat) + (
        "],\"players\":["@ + x2))),
    );
    lemma_json_string_unique(
        s1.ip.host@,
        seq![','] + (spec_dec_nat(s1.ip.port as nat) + ("],\"players\":["@ + x1)),
        s2.ip.host@,
        seq![','] + (spec_dec_nat(s2.ip.port as nat) + ("],\"players\":["@ + x2)),
    );
    lemma_cancel_prefix(
        seq![','],
        spec_dec_nat(s1.ip.port as nat) + ("],\"players\":["@ + x1),
        spec_dec_nat(s2.ip.port as nat) + ("],\"players\":["@ + x2),
    );
    let v1 = "],\"players\":["@ + x1;
    let v2 = "],\"players\":["@ + x2;
    assert(v1[0] == ']');
    assert(!is_digit_char(v1[0]));
    assert(v2[0] == ']');
    lemma_dec_nat_delimited(s1.ip.port as nat, s2.ip.port as nat, v1, v2);
    lemma_cancel_prefix("],\"players\":["@, x1, x2);
}

/// A record's encoding, regrouped around what follows it.
#[verifier::rlimit(100)]
proof fn lemma_server_shape(s: Server, r: Seq<char>)
    ensures
        spec_json_server(s) + r == spec_server_head(s) + (spec_json_players(s.players@, 0)
            + seq![']'] + (",\"favicon\":"@ + (spec_json_string(s.favicon@) + (",\"motd\":"@ + (
        spec_json_chat(s.motd) + ("}"@ + r)))))),
{
    reveal_strlit("],\"favicon\":");
    reveal_strlit(",\"favicon\":");
    assert(spec_json_server(s) + r =~= spec_server_head(s) + (spec_json_players(s.players@, 0)
        + seq![']'] + (",\"favicon\":"@ + (spec_json_string(s.favicon@) + (",\"motd\":"@ + (
    spec_json_chat(s.motd) + ("}"@ + r)))))));
}

/// A record's encoding pins its persisted data down: two streams that open
/// with record encodings agree on version, protocol, endpoint, player data
/// and favicon wherever the encodings agree. A reader of the sink therefore
/// recovers these fields of each record exactly as they were written.
#[verifier::rlimit(100)]
pub proof fn lemma_json_server_unique(s1: Server, r1: Seq<char>, s2: Server, r2: Seq<char>)
    requires
        spec_json_server(s1) + r1 == spec_json_server(s2) + r2,
    ensures
        s1.version@ == s2.version@,
        s1.protocol == s2.protocol,
        s1.ip.host@ == s2.ip.host@,
        s1.ip.port == s2.ip.port,
        s1.players@.len() == s2.players@.len(),
        forall|k: int|
            0 <= k < s1.players@.len() ==> player_data_eq(
                #[trigger] s1.players@[k],
                s2.players@[k],
            ),
        s1.favicon@ == s2.favicon@,
        chat_data_eq(s1.motd, s2.motd),
        r1 == r2,
{
    reveal_strlit("],\"favicon\":");
    reveal_strlit(",\"favicon\":");
    let y1 = ",\"favicon\":"@ + (spec_json_string(s1.favicon@) + (",\"motd\":"@ + (
    spec_json_chat(s1.motd) + ("}"@ + r1))));
    let y2 = ",\"favicon\":"@ + (spec_json_string(s2.favicon@) + (",\"motd\":"@ + (
    spec_json_chat(s2.motd) + ("}"@ + r2))));
    let x1 = spec_json_players(s1.players@, 0) + seq![']'] + y1;
    let x2 = spec_json_players(s2.players@, 0) + seq![']'] + y2;
    lemma_server_shape(s1, r1);
    lemma_server_shape(s2, r2);
    lemma_server_head_unique(s1, x1, s2, x2);
    lemma_players_region_unique(s1.players@, 0, y1, s2.players@, 0, y2);
    assert forall|k: int| 0 <= k < s1.players@.len() implies player_data_eq(
        #[trigger] s1.players@[k],
        s2.players@[k],
    ) by {
        assert(player_data_eq(s1.players@[0 + k], s2.players@[0 + k]));
    }
    lemma_cancel_prefix(
        ",\"favicon\":"@,
        spec_json_string(s1.favicon@) + (",\"motd\":"@ + (spec_json_chat(s1.motd) + ("}"@
            + r1))),
        spec_json_string(s2.favicon@) + (",\"motd\":"@ + (spec_json_chat(s2.motd) + ("}"@
            + r2))),
    );
    lemma_json_string_unique(
        s1.favicon@,
        ",\"motd\":"@ + (spec_json_chat(s1.motd) + ("}"@ + r1)),
        s2.favicon@,
        ",\"motd\":"@ + (spec_json_chat(s2.motd) + ("}"@ + r2)),
    );
    lemma_cancel_prefix(
        ",\"motd\":"@,
        spec_json_chat(s1.motd) + ("}"@ + r1),
        spec_json_chat(s2.motd) + ("}"@ + r2),
    );
    lemma_chat_unique(s1.motd, "}"@ + r1, s2.motd, "}"@ + r2);
    lemma_cancel_prefix("}"@, r1, r2);
}

/// A record read back from the sink reproduces the originating response:
/// whatever record a reader of the stream decodes, its version, protocol,
/// endpoint, player names and ids, and favicon rendering are exactly those
/// of the response that was accepted — the observation timestamps aside,
/// which are compared between the two records only.
pub proof fn lemma_read_back_reproduces_response(
    t: Target,
    resp: CCheckResponse,
    s1: Server,
    s2: Server,
    r1: Seq<char>,
    r2: Seq<char>,
)
    requires
        record_matches(s1, t, resp),
        spec_json_server(s1) + r1 == spec_json_server(s2) + r2,
    ensures
        s2.version@ == resp.version@,
        s2.protocol == resp.protocol,
        s2.ip.host@ == t.host@,
        s2.ip.port == t.port,
        s2.players@.len() == sample_players(resp).len(),
        forall|k: int|
            0 <= k < s2.players@.len() ==> (#[trigger] s2.players@[k]).username@
                == sample_players(resp)[k].name@ && s2.players@[k].uuid@ == sample_players(
                resp,
            )[k].id@,
        s2.favicon@ == base64_of(favicon_bytes(resp)),
        chat_data_eq(resp.description, s2.motd),
{
    lemma_json_server_unique(s1, r1, s2, r2);
    assert forall|k: int| 0 <= k < s2.players@.len() implies (#[trigger] s2.players@[k]).username@
        == sample_players(resp)[k].name@ && s2.players@[k].uuid@ == sample_players(resp)[k].id@ by {
        assert(player_data_eq(s1.players@[k], s2.players@[k]));
        assert(s1.players@[k].username == sample_players(resp)[k].name);
    }
}


/// The persisted data of two records agree: every field reproduced, the
/// description compared structurally.
pub open spec fn server_data_eq(a: Server, b: Server) -> bool {
    &&& a.version@ == b.version@
    &&& a.protocol == b.protocol
    &&& a.ip.host@ == b.ip.host@
    &&& a.ip.port == b.ip.port
    &&& a.players@.len() == b.players@.len()
    &&& forall|k: int|
        0 <= k < a.players@.len() ==> player_data_eq(#[trigger] a.players@[k], b.players@[k])
    &&& a.favicon@ == b.favicon@
    &&& chat_data_eq(a.motd, b.motd)
}

/// A record's encoding opens with a brace.
proof fn lemma_server_head_char(s: Server)
    ensures
        spec_json_server(s).len() >= 1,
        spec_json_server(s)[0] == '{',
{
    reveal_strlit("{\"version\":");
    assert(spec_server_head(s)[0] == '{');
    assert(spec_json_server(s)[0] == '{');
}

/// A comma-separated record list closed by an unescaped `]` is read back
/// unambiguously.
#[verifier::rlimit(100)]
proof fn lemma_servers_region_unique(
    rs1: Seq<Server>,
    f1: int,
    r1: Seq<char>,
    rs2: Seq<Server>,
    f2: int,
    r2: Seq<char>,
)
    requires
        0 <= f1 <= rs1.len(),
        0 <= f2 <= rs2.len(),
        spec_join_servers(rs1, f1) + seq![']'] + r1 == spec_join_servers(rs2, f2) + seq![']']
            + r2,
    ensures
        rs1.len() - f1 == rs2.len() - f2,
        forall|k: int| 0 <= k < rs1.len() - f1 ==> server_data_eq(#[trigger] rs1[f1 + k], rs2[f2 + k]),
        r1 == r2,
    decreases rs1.len() - f1, 0int,
{
    let la = spec_join_servers(rs1, f1) + seq![']'] + r1;
    let lb = spec_join_servers(rs2, f2) + seq![']'] + r2;
    if f1 == rs1.len() && f2 == rs2.len() {
        assert(r1 =~= la.skip(1));
        assert(r2 =~= lb.skip(1));
    } else if f1 == rs1.len() {
        lemma_server_head_char(rs2[f2]);
        assert(la[0] == ']');
        assert(lb[0] == '{');
        assert(false);
    } else if f2 == rs2.len() {
        lemma_server_head_char(rs1[f1]);
        assert(lb[0] == ']');
        assert(la[0] == '{');
        assert(false);
    } else {
        let t1 = spec_join_servers_tail(rs1, f1 + 1) + (seq![']'] + r1);
        let t2 = spec_join_servers_tail(rs2, f2 + 1) + (seq![']'] + r2);
        assert(la =~= spec_json_server(rs1[f1]) + t1);
        assert(lb =~= spec_json_server(rs2[f2]) + t2);
        lemma_json_server_unique(rs1[f1], t1, rs2[f2], t2);
        lemma_servers_tail_unique(rs1, f1 + 1, r1, rs2, f2 + 1, r2);
        assert forall|k: int| 0 <= k < rs1.len() - f1 implies server_data_eq(
            #[trigger] rs1[f1 + k],
            rs2[f2 + k],
        ) by {
            if k > 0 {
                assert(server_data_eq(rs1[(f1 + 1) + (k - 1)], rs2[(f2 + 1) + (k - 1)]));
            }
        }
    }
}

/// The comma-led continuation of a record list closed by an unescaped `]`
/// is read back unambiguously.
#[verifier::rlimit(100)]
proof fn lemma_servers_tail_unique(
    rs1: Seq<Server>,
    f1: int,
    r1: Seq<char>,
    rs2: Seq<Server>,
    f2: int,
    r2: Seq<char>,
)
    requires
        0 <= f1 <= rs1.len(),
        0 <= f2 <= rs2.len(),
        spec_join_servers_tail(rs1, f1) + (seq![']'] + r1) == spec_join_servers_tail(rs2, f2) + (
        seq![']'] + r2),
    ensures
        rs1.len() - f1 == rs2.len() - f2,
        forall|k: int| 0 <= k < rs1.len() - f1 ==> server_data_eq(#[trigger] rs1[f1 + k], rs2[f2 + k]),
        r1 == r2,
    decreases rs1.len() - f1, 1int,
{
    let la = spec_join_servers_tail(rs1, f1) + (seq![']'] + r1);
    let lb = spec_join_servers_tail(rs2, f2) + (seq![']'] + r2);
    if f1 == rs1.len() && f2 == rs2.len() {
        assert(r1 =~= la.skip(1));
        assert(r2 =~= lb.skip(1));
    } else if f1 == rs1.len() {
        assert(la[0] == ']');
        assert(lb[0] == ',');
        assert(false);
    } else if f2 == rs2.len() {
        assert(lb[0] == ']');
        assert(la[0] == ',');
        assert(false);
    } else {
        assert(la =~= seq![','] + (spec_join_servers(rs1, f1) + seq![']'] + r1));
        assert(lb =~= seq![','] + (spec_join_servers(rs2, f2) + seq![']'] + r2));
        lemma_cancel_prefix(
            seq![','],
            spec_join_servers(rs1, f1) + seq![']'] + r1,
            spec_join_servers(rs2, f2) + seq![']'] + r2,
        );
        lemma_servers_region_unique(rs1, f1, r1, rs2, f2, r2);
    }
}

/// The full byte stream of a closed sink is unambiguous: record sequences
/// with the same stream have the same length — so the element count a
/// reader finds in the array equals the number of appends — and carry the
/// same persisted data, record by record.
#[verifier::rlimit(100)]
pub proof fn lemma_sink_stream_unique(rs1: Seq<Server>, rs2: Seq<Server>)
    requires
        spec_sink_stream(rs1) == spec_sink_stream(rs2),
    ensures
        rs1.len() == rs2.len(),
        forall|k: int| 0 <= k < rs1.len() ==> server_data_eq(#[trigger] rs1[k], rs2[k]),
{
    reveal_strlit("]");
    let x1 = spec_join_servers(rs1, 0) + seq![']'] + Seq::<char>::empty();
    let x2 = spec_join_servers(rs2, 0) + seq![']'] + Seq::<char>::empty();
    assert(spec_sink_stream(rs1) =~= "["@ + x1);
    assert(spec_sink_stream(rs2) =~= "["@ + x2);
    lemma_cancel_prefix("["@, x1, x2);
    lemma_servers_region_unique(rs1, 0, Seq::empty(), rs2, 0, Seq::empty());
    assert forall|k: int| 0 <= k < rs1.len() implies server_data_eq(
        #[trigger] rs1[k],
        rs2[k],
    ) by {
        assert(server_data_eq(rs1[0 + k], rs2[0 + k]));
    }
}

} // verus!
