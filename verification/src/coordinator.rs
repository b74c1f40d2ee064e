//! Where the engine gets its rules and MQTT client ids, and where it keeps
//! the client ids it uses.
use vstd::prelude::*;
use vstd::utf8::{decode_utf8, valid_utf8};
use crate::number::{dec, usize_to_string};
use crate::text::{concat, join_strings, joined, leading_ws, str_chars, str_trim, string_from_chars, trailing_ws, trim, trim_start};
use vstd::utf8::encode_utf8;

verus! {

/// A source of rules, as JSON bytes.
pub trait RuleSource {
    fn load_rules(&self) -> Result<Vec<u8>, String>;

    fn label(&self) -> &str;
}

/// A source of stored client ids: none where nothing is stored.
pub trait ClientIdSource {
    fn load_client_ids(&self) -> Result<Option<Vec<String>>, String>;
}

/// A place to keep the client ids in use.
pub trait ClientIdSink {
    fn persist_client_ids(&self, client_ids: &[String]) -> Result<(), String>;

    fn label(&self) -> &str;
}

/// How many clients run: the count asked for, at least one.
pub open spec fn client_total(client_count: u16) -> nat {
    if client_count > 1 {
        client_count as nat
    } else {
        1
    }
}

pub fn normalize_client_count(client_count: u16) -> (r: usize)
    ensures
        r == client_total(client_count),
{
    if client_count > 1 {
        client_count as usize
    } else {
        1
    }
}

/// `node_0`, `node_1`, ... for `n` clients.
pub open spec fn generated_ids(node_id: Seq<char>, n: nat) -> Seq<Seq<char>> {
    Seq::new(n, |i: int| node_id + "_"@ + dec(i as nat))
}

pub open spec fn strings_of(v: Seq<String>) -> Seq<Seq<char>> {
    v.map_values(|s: String| s@)
}

/// The client ids to use given what the source gave: the stored ones where
/// there are any, else ids generated from the node id.
pub open spec fn chosen_ids(loaded: Result<Option<Vec<String>>, String>, node_id: Seq<char>, client_count: u16) -> Seq<Seq<char>> {
    match loaded {
        Ok(Some(v)) => strings_of(v@),
        _ => generated_ids(node_id, client_total(client_count)),
    }
}

/// The client ids to use, given what the client-id source returned.
pub fn choose_client_ids(loaded: Result<Option<Vec<String>>, String>, node_id: &str, client_count: u16) -> (r: Vec<String>)
    ensures
        strings_of(r@) == chosen_ids(loaded, node_id@, client_count),
{
    let ghost l = loaded;
    match loaded {
        Ok(Some(values)) => {
            proof {
                assert(strings_of(values@) == chosen_ids(l, node_id@, client_count));
            }
            values
        },
        _ => {
            let n = normalize_client_count(client_count);
            let mut ids: Vec<String> = Vec::new();
            let mut i: usize = 0;
            while i < n
                invariant
                    i <= n,
                    n == client_total(client_count),
                    ids@.len() == i,
                    forall|j: int| 0 <= j < i ==> #[trigger] ids@[j]@ == node_id@ + "_"@ + dec(j as nat),
                decreases n - i,
            {
                let a = concat(node_id, "_");
                let d = usize_to_string(i);
                ids.push(concat(a.as_str(), d.as_str()));
                i = i + 1;
            }
            assert(strings_of(ids@) =~= generated_ids(node_id@, client_total(client_count)));
            ids
        },
    }
}

/// One request that the coordinator made of its components, with what came
/// back.
pub ghost enum ComponentCall {
    /// `RuleSource::load_rules` of the rule source.
    LoadRules { result: Result<Seq<u8>, Seq<char>> },
    /// `RuleSource::label` of the rule source.
    RuleLabel { label: Seq<char> },
    /// `ClientIdSource::load_client_ids` of the client-id source.
    LoadClientIds { result: Result<Option<Vec<String>>, String> },
    /// `ClientIdSink::persist_client_ids` of the client-id sink.
    PersistClientIds { client_ids: Seq<Seq<char>>, result: Result<(), Seq<char>> },
    /// `ClientIdSink::label` of the client-id sink.
    SinkLabel { label: Seq<char> },
}

/// A byte result as plain values.
pub open spec fn bytes_result(r: Result<Vec<u8>, String>) -> Result<Seq<u8>, Seq<char>> {
    match r {
        Ok(b) => Ok(b@),
        Err(e) => Err(e@),
    }
}

/// A unit result as plain values.
pub open spec fn unit_result(r: Result<(), String>) -> Result<(), Seq<char>> {
    match r {
        Ok(_) => Ok(()),
        Err(e) => Err(e@),
    }
}

/// The engine's view of its rule source and its client-id store, with the
/// requests it has made of them.
pub struct EngineCoordinator<R: RuleSource, S: ClientIdSource, K: ClientIdSink> {
    rule_source: R,
    client_id_source: S,
    client_id_sink: K,
    calls: Ghost<Seq<ComponentCall>>,
}

impl<R: RuleSource, S: ClientIdSource, K: ClientIdSink> EngineCoordinator<R, S, K> {
    /// A coordinator over the three components; none of them is asked
    /// anything.
    pub fn new(rule_source: R, client_id_source: S, client_id_sink: K) -> (r: Self)
        ensures
            r.rules() == rule_source,
            r.source() == client_id_source,
            r.sink() == client_id_sink,
            r.component_calls().len() == 0,
    {
        EngineCoordinator { rule_source, client_id_source, client_id_sink, calls: Ghost(Seq::empty()) }
    }

    pub closed spec fn rules(&self) -> R {
        self.rule_source
    }

    pub closed spec fn source(&self) -> S {
        self.client_id_source
    }

    pub closed spec fn sink(&self) -> K {
        self.client_id_sink
    }

    /// The requests made of the components so far, in order, with what came
    /// back.
    pub closed spec fn component_calls(&self) -> Seq<ComponentCall> {
        self.calls@
    }

    /// The rules, as the rule source gives them: its `load_rules` is asked
    /// once, and its answer is the result.
    pub fn load_rule_bytes(&mut self) -> (r: Result<Vec<u8>, String>)
        ensures
            final(self).rules() == old(self).rules(),
            final(self).source() == old(self).source(),
            final(self).sink() == old(self).sink(),
            final(self).component_calls() == old(self).component_calls().push(ComponentCall::LoadRules { result: bytes_result(r) }),
    {
        let r = self.rule_source.load_rules();
        proof {
            self.calls@ = self.calls@.push(ComponentCall::LoadRules { result: bytes_result(r) });
        }
        r
    }

    /// What the rule source is called: its `label`.
    pub fn rule_source_label(&mut self) -> (r: &str)
        ensures
            final(self).rules() == old(self).rules(),
            final(self).source() == old(self).source(),
            final(self).sink() == old(self).sink(),
            final(self).component_calls() == old(self).component_calls().push(ComponentCall::RuleLabel { label: r@ }),
    {
        let r = self.rule_source.label();
        proof {
            self.calls@ = self.calls@.push(ComponentCall::RuleLabel { label: r@ });
        }
        r
    }

    /// The client ids to use: the client-id source's `load_client_ids` is
    /// asked once; the stored ids where it gave some, else `node_0`,
    /// `node_1`, ... for the client count, at least one.
    pub fn resolve_client_ids(&mut self, node_id: &str, client_count: u16) -> (r: Vec<String>)
        ensures
            final(self).rules() == old(self).rules(),
            final(self).source() == old(self).source(),
            final(self).sink() == old(self).sink(),
            exists|loaded: Result<Option<Vec<String>>, String>|
                #[trigger] old(self).component_calls().push(ComponentCall::LoadClientIds { result: loaded }) == final(self).component_calls()
                && strings_of(r@) == chosen_ids(loaded, node_id@, client_count),
    {
        let loaded = self.client_id_source.load_client_ids();
        let ghost l = loaded;
        proof {
            self.calls@ = self.calls@.push(ComponentCall::LoadClientIds { result: l });
        }
        let r = choose_client_ids(loaded, node_id, client_count);
        assert(old(self).component_calls().push(ComponentCall::LoadClientIds { result: l }) == self.component_calls());
        r
    }

    /// Keeps `client_ids` in the client-id sink: its `persist_client_ids` is
    /// handed them, and its answer is the result.
    pub fn persist_client_ids(&mut self, client_ids: &[String]) -> (r: Result<(), String>)
        ensures
            final(self).rules() == old(self).rules(),
            final(self).source() == old(self).source(),
            final(self).sink() == old(self).sink(),
            final(self).component_calls() == old(self).component_calls().push(
                ComponentCall::PersistClientIds { client_ids: strings_of(client_ids@), result: unit_result(r) }),
    {
        let r = self.client_id_sink.persist_client_ids(client_ids);
        proof {
            self.calls@ = self.calls@.push(ComponentCall::PersistClientIds { client_ids: strings_of(client_ids@), result: unit_result(r) });
        }
        r
    }

    /// What the client-id sink is called: its `label`.
    pub fn client_id_sink_label(&mut self) -> (r: &str)
        ensures
            final(self).rules() == old(self).rules(),
            final(self).source() == old(self).source(),
            final(self).sink() == old(self).sink(),
            final(self).component_calls() == old(self).component_calls().push(ComponentCall::SinkLabel { label: r@ }),
    {
        let r = self.client_id_sink.label();
        proof {
            self.calls@ = self.calls@.push(ComponentCall::SinkLabel { label: r@ });
        }
        r
    }
}

/// The files of the OSS engine's rules and client ids.
#[derive(Debug, Clone)]
pub struct OssCoordinator {
    pub rule_path: String,
    pub client_ids_path: String,
}

impl OssCoordinator {
    pub fn from_files(rule_path: String, client_ids_path: String) -> (r: Self)
        ensures
            r.rule_path@ == rule_path@,
            r.client_ids_path@ == client_ids_path@,
    {
        OssCoordinator { rule_path, client_ids_path }
    }
}

/// `std::str::from_utf8`: the text of valid UTF-8 bytes, none for other
/// bytes.
#[verifier::external_body]
fn utf8_text(bytes: &[u8]) -> (r: Option<String>)
    ensures
        match r {
            Some(s) => valid_utf8(bytes@) && s@ == decode_utf8(bytes@),
            None => !valid_utf8(bytes@),
        },
{
    match std::str::from_utf8(bytes) {
        Ok(s) => Some(s.to_string()),
        Err(_) => None,
    }
}

/// A line, trimmed, kept where it is not blank.
pub open spec fn kept_line(line: Seq<char>) -> Seq<Seq<char>> {
    if trim(line).len() == 0 {
        seq![]
    } else {
        seq![trim(line)]
    }
}

/// The non-blank lines of `s`, trimmed, `cur` being the start of the first.
pub open spec fn line_ids(s: Seq<char>, cur: Seq<char>) -> Seq<Seq<char>>
    decreases s.len(),
{
    if s.len() == 0 {
        kept_line(cur)
    } else if s[0] == '\n' {
        kept_line(cur) + line_ids(s.drop_first(), seq![])
    } else {
        line_ids(s.drop_first(), cur.push(s[0]))
    }
}

/// The client ids in the text of a client-id file: its non-blank lines,
/// trimmed; none where there are none or the text is not UTF-8.
pub open spec fn file_client_ids(bytes: Seq<u8>) -> Option<Seq<Seq<char>>> {
    if !valid_utf8(bytes) || line_ids(decode_utf8(bytes), seq![]).len() == 0 {
        None
    } else {
        Some(line_ids(decode_utf8(bytes), seq![]))
    }
}

fn keep_line(out: &mut Vec<String>, cur: &Vec<char>)
    ensures
        strings_of(final(out)@) == strings_of(old(out)@) + kept_line(cur@),
{
    let line = string_from_chars(cur.as_slice());
    let t = str_trim(line.as_str());
    if !t.as_str().is_empty() {
        out.push(t);
        assert(strings_of(out@) =~= strings_of(old(out)@) + kept_line(cur@));
    } else {
        assert(strings_of(out@) =~= strings_of(old(out)@) + kept_line(cur@));
    }
}

/// The client ids of a client-id file's content.
pub fn parse_client_ids(bytes: &[u8]) -> (r: Option<Vec<String>>)
    ensures
        match r {
            Some(v) => file_client_ids(bytes@) == Some(strings_of(v@)),
            None => file_client_ids(bytes@) is None,
        },
{
    let text = utf8_text(bytes)?;
    let s = str_chars(text.as_str());
    let mut out: Vec<String> = Vec::new();
    let mut cur: Vec<char> = Vec::new();
    let mut i: usize = 0;
    assert(s@.skip(0) =~= s@);
    while i < s.len()
        invariant
            i <= s@.len(),
            line_ids(s@, seq![]) == strings_of(out@) + line_ids(s@.skip(i as int), cur@),
        decreases s@.len() - i,
    {
        let c = s[i];
        assert(s@.skip(i as int)[0] == c);
        assert(s@.skip(i as int).drop_first() =~= s@.skip(i + 1));
        if c == '\n' {
            let ghost before = strings_of(out@);
            let ghost line = cur@;
            keep_line(&mut out, &cur);
            cur = Vec::new();
            assert(line_ids(s@.skip(i as int), line) == kept_line(line) + line_ids(s@.skip(i + 1), seq![]));
            assert(line_ids(s@, seq![]) == strings_of(out@) + line_ids(s@.skip(i + 1), cur@)) by {
                assert(cur@ =~= Seq::<char>::empty());
                assert(before + (kept_line(line) + line_ids(s@.skip(i + 1), seq![]))
                    =~= (before + kept_line(line)) + line_ids(s@.skip(i + 1), seq![]));
            }
        } else {
            let ghost line = cur@;
            cur.push(c);
            assert(line_ids(s@.skip(i as int), line) == line_ids(s@.skip(i + 1), cur@));
        }
        i = i + 1;
    }
    keep_line(&mut out, &cur);
    assert(s@.skip(i as int) =~= Seq::<char>::empty());
    assert(line_ids(s@, seq![]) =~= strings_of(out@));
    if out.len() == 0 {
        None
    } else {
        Some(out)
    }
}


/// `tenon_oss_<pid>_<millis>`.
pub open spec fn node_id_text(pid: u32, millis: u64) -> Seq<char> {
    "tenon_oss_"@ + dec(pid as nat) + "_"@ + dec(millis as nat)
}

/// The node id used where the configuration names none, from the process
/// id and the time in milliseconds.
pub fn default_node_id(pid: u32, millis: u64) -> (r: String)
    ensures
        r@ == node_id_text(pid, millis),
{
    let a = concat("tenon_oss_", crate::number::u64_to_string(pid as u64).as_str());
    let b = concat(a.as_str(), "_");
    let r = concat(b.as_str(), crate::number::u64_to_string(millis).as_str());
    assert(r@ =~= node_id_text(pid, millis));
    r
}

/// How many MQTT clients run: one per client id, at least one, as a `u16`
/// count (cut to 16 bits as a cast does).
pub fn mqtt_client_count(client_ids: usize) -> (r: u16)
    ensures
        r == (if client_ids < 1 { 1u16 } else { client_ids as u16 }),
{
    if client_ids < 1 {
        1
    } else {
        client_ids as u16
    }
}


/// What a client-id file holds: one id per line, each line ended.
pub open spec fn client_ids_text(ids: Seq<Seq<char>>) -> Seq<char> {
    joined(ids, "\n"@) + "\n"@
}

/// The content of the client-id file for `client_ids`; none where there
/// are no ids, in which case the file is left as it is.
pub fn client_ids_file_content(client_ids: &[String]) -> (r: Option<String>)
    ensures
        match r {
            None => client_ids@.len() == 0,
            Some(t) => client_ids@.len() > 0 && t@ == client_ids_text(strings_of(client_ids@)),
        },
{
    if client_ids.len() == 0 {
        return None;
    }
    let body = join_strings(client_ids, "\n");
    assert(strings_of(client_ids@) =~= client_ids@.map_values(|s: String| s@));
    Some(concat(body.as_str(), "\n"))
}

/// An id that a client-id file carries unchanged: not empty, without
/// surrounding whitespace and without a line break.
pub open spec fn storable_id(id: Seq<char>) -> bool {
    &&& id.len() > 0
    &&& trim(id) == id
    &&& !id.contains('\n')
}

proof fn lemma_trim_empty()
    ensures
        trim(Seq::<char>::empty()).len() == 0,
{
    let e = Seq::<char>::empty();
    assert(leading_ws(e) == 0);
    assert(trim_start(e) =~= e);
    assert(trailing_ws(e) == 0);
}

/// Reading a line that ends before `rest`.
proof fn lemma_line_then_rest(x: Seq<char>, rest: Seq<char>, cur: Seq<char>)
    requires
        !x.contains('\n'),
    ensures
        line_ids(x + "\n"@ + rest, cur) == kept_line(cur + x) + line_ids(rest, seq![]),
    decreases x.len(),
{
    reveal_strlit("\n");
    let s = x + "\n"@ + rest;
    if x.len() == 0 {
        assert(s =~= seq!['\n'] + rest);
        assert(s[0] == '\n');
        assert(s.drop_first() =~= rest);
        assert(cur + x =~= cur);
    } else {
        assert(s[0] == x[0]);
        assert(x[0] != '\n') by {
            if x[0] == '\n' {
                assert(x.contains('\n'));
            }
        }
        assert(s.drop_first() =~= x.drop_first() + "\n"@ + rest);
        assert(!x.drop_first().contains('\n')) by {
            if x.drop_first().contains('\n') {
                let k = choose|k: int| 0 <= k < x.drop_first().len() && x.drop_first()[k] == '\n';
                assert(x[k + 1] == '\n');
            }
        }
        lemma_line_then_rest(x.drop_first(), rest, cur.push(x[0]));
        assert(cur.push(x[0]) + x.drop_first() =~= cur + x);
    }
}

/// The lines of the text of `ids`, then whatever follows.
proof fn lemma_ids_then_rest(ids: Seq<Seq<char>>, rest: Seq<char>)
    requires
        ids.len() > 0,
        forall|i: int| 0 <= i < ids.len() ==> storable_id(#[trigger] ids[i]),
    ensures
        line_ids(client_ids_text(ids) + rest, seq![]) == ids + line_ids(rest, seq![]),
    decreases ids.len(),
{
    let last = ids.last();
    assert(storable_id(ids[ids.len() - 1]));
    assert(kept_line(Seq::<char>::empty() + last) =~= seq![last]) by {
        assert(Seq::<char>::empty() + last =~= last);
    }
    if ids.len() == 1 {
        assert(joined(ids, "\n"@) == ids[0]);
        assert(client_ids_text(ids) + rest =~= last + "\n"@ + rest);
        lemma_line_then_rest(last, rest, seq![]);
        assert(ids =~= seq![last]);
    } else {
        let init = ids.drop_last();
        assert forall|i: int| 0 <= i < init.len() implies storable_id(#[trigger] init[i]) by {
            assert(init[i] == ids[i]);
        }
        let tail = last + "\n"@ + rest;
        assert(client_ids_text(ids) + rest =~= client_ids_text(init) + tail);
        lemma_ids_then_rest(init, tail);
        lemma_line_then_rest(last, rest, seq![]);
        assert(init + (seq![last] + line_ids(rest, seq![])) =~= ids + line_ids(rest, seq![]));
    }
}

/// What the file written for some client ids gives back when it is read:
/// the same ids, in order, as long as each is a storable id.
pub proof fn law_client_id_file_round_trip(ids: Seq<Seq<char>>)
    requires
        ids.len() > 0,
        forall|i: int| 0 <= i < ids.len() ==> storable_id(#[trigger] ids[i]),
    ensures
        file_client_ids(encode_utf8(client_ids_text(ids))) == Some(ids),
{
    broadcast use vstd::utf8::encode_utf8_decode_utf8, vstd::utf8::encode_utf8_valid_utf8;

    let t = client_ids_text(ids);
    lemma_ids_then_rest(ids, Seq::<char>::empty());
    assert(t + Seq::<char>::empty() =~= t);
    lemma_trim_empty();
    assert(line_ids(Seq::<char>::empty(), seq![]) =~= Seq::<Seq<char>>::empty());
    assert(ids + Seq::<Seq<char>>::empty() =~= ids);
}

} // verus!
