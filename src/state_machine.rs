use vstd::bytes::{lemma_auto_spec_u64_to_from_le_bytes, spec_u64_from_le_bytes, spec_u64_to_le_bytes, u64_from_le_bytes, u64_to_le_bytes};
use vstd::prelude::*;
use vstd::utf8::{decode_utf8, encode_utf8, encode_utf8_decode_utf8, encode_utf8_valid_utf8, valid_utf8};

verus! {

/// The two operations of the key-value state machine.
#[derive(Debug, PartialEq, Eq, Structural)]
pub enum CommandKind {
    GetCommand,
    SetCommand,
}

/// The byte that stands for a kind on the wire.
pub open spec fn kind_byte(kind: CommandKind) -> u8 {
    match kind {
        CommandKind::GetCommand => 0,
        CommandKind::SetCommand => 1,
    }
}

/// The kind that a byte on the wire stands for, if any.
pub open spec fn kind_of_byte(b: u8) -> Option<CommandKind> {
    if b == 0 {
        Some(CommandKind::GetCommand)
    } else if b == 1 {
        Some(CommandKind::SetCommand)
    } else {
        None
    }
}

impl CommandKind {
    pub fn index(&self) -> (r: u8)
        ensures
            r == kind_byte(*self),
    {
        match self {
            CommandKind::GetCommand => 0,
            CommandKind::SetCommand => 1,
        }
    }

    pub fn from_u8(value: u8) -> (r: Option<CommandKind>)
        ensures
            r == kind_of_byte(value),
    {
        match value {
            0 => Some(CommandKind::GetCommand),
            1 => Some(CommandKind::SetCommand),
            _ => None,
        }
    }
}

/// A client command: read a key, or write a value under a key.
#[derive(Debug)]
pub struct Command {
    pub kind: CommandKind,
    pub key: String,
    pub value: String,
}

/// A length-prefixed field: the byte count as a little-endian `u64`, then the bytes.
pub open spec fn field_wire(bytes: Seq<u8>) -> Seq<u8> {
    spec_u64_to_le_bytes(bytes.len() as u64) + bytes
}

/// The wire form of a command: the kind byte, the key as a field and, for a write
/// only, the value as a field.
pub open spec fn command_wire(kind: CommandKind, key: Seq<char>, value: Seq<char>) -> Seq<u8> {
    seq![kind_byte(kind)] + field_wire(encode_utf8(key)) + if kind == CommandKind::SetCommand {
        field_wire(encode_utf8(value))
    } else {
        Seq::<u8>::empty()
    }
}

/// The length-prefixed field that starts at `at`, if the buffer holds all of it.
pub open spec fn read_field(b: Seq<u8>, at: int) -> Option<Seq<u8>> {
    if 0 <= at && at + 8 <= b.len() {
        let n = spec_u64_from_le_bytes(b.subrange(at, at + 8)) as int;
        if at + 8 + n <= b.len() {
            Some(b.subrange(at + 8, at + 8 + n))
        } else {
            None
        }
    } else {
        None
    }
}

/// What a buffer decodes to: kind, key and value (empty for a read), or nothing
/// when a field is cut short, the kind byte is unknown or a string is not UTF-8.
pub open spec fn decoded(b: Seq<u8>) -> Option<(CommandKind, Seq<char>, Seq<char>)> {
    if b.len() < 9 {
        None
    } else {
        match (kind_of_byte(b[0]), read_field(b, 1)) {
            (Some(kind), Some(key)) => {
                if !valid_utf8(key) {
                    None
                } else if kind == CommandKind::SetCommand {
                    match read_field(b, 9 + key.len() as int) {
                        Some(value) => if valid_utf8(value) {
                            Some((kind, decode_utf8(key), decode_utf8(value)))
                        } else {
                            None
                        },
                        None => None,
                    }
                } else {
                    Some((kind, decode_utf8(key), Seq::<char>::empty()))
                }
            },
            _ => None,
        }
    }
}

impl Command {
    pub fn new(kind: CommandKind, key: String, value: Option<String>) -> (r: Command)
        ensures
            r.kind == kind,
            r.key@ == key@,
            r.value@ == (match value {
                Some(v) => v@,
                None => Seq::<char>::empty(),
            }),
    {
        Command {
            kind,
            key,
            value: if let Some(val) = value {
                val
            } else {
                String::new()
            },
        }
    }
}

/// Appends `src[start..end]` to `dst`.
fn append_range(dst: &mut Vec<u8>, src: &[u8], start: usize, end: usize)
    requires
        start <= end <= src@.len(),
    ensures
        final(dst)@ == old(dst)@ + src@.subrange(start as int, end as int),
{
    let ghost first = old(dst)@;
    let mut i: usize = start;
    while i < end
        invariant
            start <= i <= end <= src@.len(),
            dst@ == first + src@.subrange(start as int, i as int),
        decreases end - i,
    {
        dst.push(src[i]);
        i = i + 1;
        assert(dst@ =~= first + src@.subrange(start as int, i as int));
    }
}

/// Relies on String::from_utf8: it succeeds exactly on valid UTF-8, and the
/// string then holds the characters that the bytes encode.
#[verifier::external_body]
fn string_from_utf8(bytes: Vec<u8>) -> (r: Option<String>)
    ensures
        r is Some <==> valid_utf8(bytes@),
        r is Some ==> r->0@ == decode_utf8(bytes@),
{
    String::from_utf8(bytes).ok()
}

/// Encodes a command in the wire format; the value of a read is not written.
pub fn encode_command(c: Command) -> (msg: Vec<u8>)
    ensures
        msg@ == command_wire(c.kind, c.key@, c.value@),
{
    let mut msg: Vec<u8> = Vec::new();
    msg.push(c.kind.index());

    let key_bytes = c.key.as_str().as_bytes();
    let key_len = u64_to_le_bytes(key_bytes.len() as u64);
    append_range(&mut msg, key_len.as_slice(), 0, 8);
    append_range(&mut msg, key_bytes, 0, key_bytes.len());
    assert(msg@ =~= seq![kind_byte(c.kind)] + field_wire(encode_utf8(c.key@)));

    if c.kind == CommandKind::SetCommand {
        let value_bytes = c.value.as_str().as_bytes();
        let value_len = u64_to_le_bytes(value_bytes.len() as u64);
        let ghost before = msg@;
        append_range(&mut msg, value_len.as_slice(), 0, 8);
        append_range(&mut msg, value_bytes, 0, value_bytes.len());
        assert(msg@ =~= before + field_wire(encode_utf8(c.value@)));
    } else {
        assert(msg@ =~= msg@ + Seq::<u8>::empty());
    }
    msg
}

/// Reads the length-prefixed field at `at`.
fn read_field_exec(msg: &[u8], at: usize) -> (r: Option<Vec<u8>>)
    ensures
        match read_field(msg@, at as int) {
            Some(f) => r is Some && r->0@ == f,
            None => r is None,
        },
{
    if msg.len() < 8 || at > msg.len() - 8 {
        return None;
    }
    let mut len_bytes: Vec<u8> = Vec::new();
    append_range(&mut len_bytes, msg, at, at + 8);
    let n = u64_from_le_bytes(len_bytes.as_slice());
    if n > (msg.len() - at - 8) as u64 {
        return None;
    }
    let mut out: Vec<u8> = Vec::new();
    append_range(&mut out, msg, at + 8, at + 8 + n as usize);
    assert(out@ =~= msg@.subrange(at + 8, at + 8 + n as int));
    Some(out)
}

/// Decodes a command from the wire format; a short buffer, an unknown kind or
/// a string that is not UTF-8 gives `None`.
pub fn decode_command(msg: &[u8]) -> (r: Option<Command>)
    ensures
        match decoded(msg@) {
            Some((kind, key, value)) => r is Some && r->0.kind == kind && r->0.key@ == key
                && r->0.value@ == value,
            None => r is None,
        },
{
    if msg.len() < 9 {
        return None;
    }
    let kind = match CommandKind::from_u8(msg[0]) {
        Some(k) => k,
        None => return None,
    };
    let key_bytes = match read_field_exec(msg, 1) {
        Some(b) => b,
        None => return None,
    };
    let key_len = key_bytes.len();
    let key = match string_from_utf8(key_bytes) {
        Some(s) => s,
        None => return None,
    };

    let mut value = String::new();
    if kind == CommandKind::SetCommand {
        let value_bytes = match read_field_exec(msg, 9 + key_len) {
            Some(b) => b,
            None => return None,
        };
        value = match string_from_utf8(value_bytes) {
            Some(s) => s,
            None => return None,
        };
    }
    Some(Command { kind, key, value })
}

/// Decoding the encoding of a command gives back its kind and key, and its value
/// for a write; a read comes back with an empty value.
pub proof fn lemma_command_round_trip(kind: CommandKind, key: Seq<char>, value: Seq<char>)
    requires
        encode_utf8(key).len() <= u64::MAX,
        encode_utf8(value).len() <= u64::MAX,
    ensures
        decoded(command_wire(kind, key, value)) == Some(
            (kind, key, if kind == CommandKind::SetCommand { value } else { Seq::<char>::empty() }),
        ),
{
    broadcast use encode_utf8_valid_utf8, encode_utf8_decode_utf8;
    lemma_auto_spec_u64_to_from_le_bytes();
    let kb = encode_utf8(key);
    let vb = encode_utf8(value);
    let b = command_wire(kind, key, value);
    let kl = spec_u64_to_le_bytes(kb.len() as u64);
    assert(b.subrange(1, 9) =~= kl);
    assert(b.subrange(9, 9 + kb.len() as int) =~= kb);
    if kind == CommandKind::SetCommand {
        let vl = spec_u64_to_le_bytes(vb.len() as u64);
        let at: int = 9 + kb.len() as int;
        assert(b.subrange(at, at + 8) =~= vl);
        assert(b.subrange(at + 8, at + 8 + vb.len() as int) =~= vb);
    }
}

/// The value that the last pair holding `key` gives it.
pub open spec fn lookup(pairs: Seq<(String, String)>, key: Seq<char>) -> Option<Seq<char>>
    decreases pairs.len(),
{
    if pairs.len() == 0 {
        None
    } else if pairs.last().0@ == key {
        Some(pairs.last().1@)
    } else {
        lookup(pairs.drop_last(), key)
    }
}

/// Replacing the last pair that holds `key` sets `key` and leaves every other key.
proof fn lemma_lookup_update(pairs: Seq<(String, String)>, j: int, entry: (String, String), q: Seq<char>)
    requires
        0 <= j < pairs.len(),
        pairs[j].0@ == entry.0@,
        forall|i: int| j < i < pairs.len() ==> pairs[i].0@ != entry.0@,
    ensures
        lookup(pairs.update(j, entry), q) == if q == entry.0@ {
            Some(entry.1@)
        } else {
            lookup(pairs, q)
        },
    decreases pairs.len(),
{
    let u = pairs.update(j, entry);
    if j < pairs.len() - 1 {
        assert(u.drop_last() =~= pairs.drop_last().update(j, entry));
        lemma_lookup_update(pairs.drop_last(), j, entry, q);
    } else {
        assert(u.drop_last() =~= pairs.drop_last());
    }
}

/// The error of a command that does not decode.
#[derive(Debug, PartialEq, Eq, Structural)]
pub enum ApplyError {
    MalformedCommand,
}

/// The store after a command: a write sets its key, anything else leaves it.
pub open spec fn store_after(db: Map<Seq<char>, Seq<char>>, cmd: Seq<u8>) -> Map<Seq<char>, Seq<char>> {
    match decoded(cmd) {
        Some((kind, key, value)) => if kind == CommandKind::SetCommand {
            db.insert(key, value)
        } else {
            db
        },
        None => db,
    }
}

/// The key-value store that committed commands are applied to.
#[derive(Debug)]
pub struct StateMachine {
    pub db: Vec<(String, String)>,
    pub server: usize,
}

impl View for StateMachine {
    type V = Map<Seq<char>, Seq<char>>;

    open spec fn view(&self) -> Map<Seq<char>, Seq<char>> {
        Map::new(|k: Seq<char>| lookup(self.db@, k) is Some, |k: Seq<char>| lookup(self.db@, k)->0)
    }
}

impl StateMachine {
    /// An empty store.
    pub fn new(server: usize) -> (r: StateMachine)
        ensures
            r@ == Map::<Seq<char>, Seq<char>>::empty(),
            r.server == server,
    {
        let r = StateMachine { db: Vec::new(), server };
        assert(r@ =~= Map::<Seq<char>, Seq<char>>::empty());
        r
    }

    /// Where the last pair holding `key` stands, if any.
    fn position(&self, key: &String) -> (r: Option<usize>)
        ensures
            match r {
                Some(j) => j < self.db@.len() && self.db@[j as int].0@ == key@ && forall|i: int|
                    j < i < self.db@.len() ==> self.db@[i].0@ != key@,
                None => lookup(self.db@, key@) is None,
            },
            r is Some ==> lookup(self.db@, key@) == Some(self.db@[r->0 as int].1@),
    {
        let mut i: usize = self.db.len();
        assert(self.db@.subrange(0, i as int) =~= self.db@);
        while i > 0
            invariant
                i <= self.db@.len(),
                forall|t: int| i <= t < self.db@.len() ==> self.db@[t].0@ != key@,
                lookup(self.db@, key@) == lookup(self.db@.subrange(0, i as int), key@),
            decreases i,
        {
            let ghost pre = self.db@.subrange(0, i as int);
            assert(pre.drop_last() =~= self.db@.subrange(0, i - 1));
            if self.db[i - 1].0 == *key {
                return Some(i - 1);
            }
            i = i - 1;
        }
        None
    }

    /// The value stored under `key`.
    pub fn get(&self, key: &String) -> (r: Option<String>)
        ensures
            match r {
                Some(v) => self@.contains_key(key@) && v@ == self@[key@],
                None => !self@.contains_key(key@),
            },
    {
        match self.position(key) {
            Some(j) => Some(self.db[j].1.clone()),
            None => None,
        }
    }

    /// Stores `value` under `key`.
    pub fn insert(&mut self, key: String, value: String)
        ensures
            final(self)@ == old(self)@.insert(key@, value@),
            final(self).server == old(self).server,
    {
        let ghost k = key@;
        let ghost v = value@;
        match self.position(&key) {
            Some(j) => {
                let ghost before = self.db@;
                let entry = (key, value);
                assert forall|q: Seq<char>| lookup(before.update(j as int, entry), q) == (if q == k {
                    Some(v)
                } else {
                    lookup(before, q)
                }) by {
                    lemma_lookup_update(before, j as int, entry, q);
                }
                self.db.set(j, entry);
            },
            None => {
                self.db.push((key, value));
                assert(self.db@.drop_last() =~= old(self).db@);
            },
        }
        assert(self@ =~= old(self)@.insert(k, v));
    }

    /// Applies one encoded command. A read returns the bytes of the stored value,
    /// or nothing when the key is absent; a write stores its value and returns
    /// nothing; a buffer that does not decode is an error and changes nothing.
    pub fn apply(&mut self, cmd: &[u8]) -> (r: Result<Option<Vec<u8>>, ApplyError>)
        ensures
            final(self)@ == store_after(old(self)@, cmd@),
            final(self).server == old(self).server,
            match decoded(cmd@) {
                None => r == Err::<Option<Vec<u8>>, ApplyError>(ApplyError::MalformedCommand),
                Some((kind, key, value)) => match r {
                    Ok(Some(b)) => kind == CommandKind::GetCommand && old(self)@.contains_key(key)
                        && b@ == encode_utf8(old(self)@[key]),
                    Ok(None) => kind == CommandKind::SetCommand || !old(self)@.contains_key(key),
                    Err(_) => false,
                },
            },
    {
        let c = match decode_command(cmd) {
            Some(c) => c,
            None => return Err(ApplyError::MalformedCommand),
        };
        match c.kind {
            CommandKind::GetCommand => {
                match self.get(&c.key) {
                    Some(value) => {
                        let bytes = value.as_str().as_bytes();
                        let mut out: Vec<u8> = Vec::new();
                        append_range(&mut out, bytes, 0, bytes.len());
                        assert(out@ =~= bytes@);
                        Ok(Some(out))
                    },
                    None => Ok(None),
                }
            },
            CommandKind::SetCommand => {
                self.insert(c.key, c.value);
                Ok(None)
            },
        }
    }
}

} // verus!
