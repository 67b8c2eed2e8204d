use crate::decimal::{decimal, parse_decimal};
use crate::raft::ClusterMember;
use vstd::prelude::*;
use vstd::utf8::encode_utf8;

verus! {

/// How this node was started: its position in the cluster, its own identity
/// and addresses, and the fixed membership of the cluster.
#[derive(Debug, Default)]
pub struct Config {
    pub index: usize,
    pub id: String,
    pub address: String,
    pub http: String,
    pub cluster: Vec<ClusterMember>,
}

/// Why the command line does not describe a node.
#[derive(Clone, Copy, Debug, PartialEq, Eq, Structural)]
pub enum ConfigError {
    /// A parameter is the last argument and has no value.
    MissingValue,
    /// The value of `--node` is not a decimal position.
    BadNode,
    /// A cluster entry is not of the form `$id,$address`.
    BadClusterEntry,
    /// A cluster entry's id is not a decimal `u64`.
    BadClusterId,
    /// An argument that is no known parameter.
    UnknownParameter,
    MissingNode,
    MissingHttp,
    MissingCluster,
}

/// The pieces of `s` between occurrences of `sep`; a string without `sep` is
/// one piece.
pub open spec fn pieces(s: Seq<char>, sep: char) -> Seq<Seq<char>>
    decreases s.len(),
{
    if s.len() == 0 {
        seq![Seq::<char>::empty()]
    } else {
        let rest = pieces(s.drop_last(), sep);
        if s.last() == sep {
            rest.push(Seq::<char>::empty())
        } else {
            rest.update(rest.len() - 1, rest.last().push(s.last()))
        }
    }
}

/// A cluster entry `$id,$address`: its id and address.
pub open spec fn cluster_entry(piece: Seq<char>) -> Result<(u64, Seq<char>), ConfigError> {
    let f = pieces(piece, ',');
    if f.len() != 2 {
        Err(ConfigError::BadClusterEntry)
    } else {
        match decimal(encode_utf8(f[0])) {
            Some(id) => Ok((id, f[1])),
            None => Err(ConfigError::BadClusterId),
        }
    }
}

/// The members that the entries `ps` describe, or the error of the first bad one.
pub open spec fn cluster_entries(ps: Seq<Seq<char>>) -> Result<Seq<(u64, Seq<char>)>, ConfigError>
    decreases ps.len(),
{
    if ps.len() == 0 {
        Ok(Seq::empty())
    } else {
        match cluster_entries(ps.drop_last()) {
            Err(e) => Err(e),
            Ok(ms) => match cluster_entry(ps.last()) {
                Err(e) => Err(e),
                Ok(m) => Ok(ms.push(m)),
            },
        }
    }
}

/// The members, as (id, address), of a cluster list `$id,$address;...`.
pub open spec fn cluster_list(s: Seq<char>) -> Result<Seq<(u64, Seq<char>)>, ConfigError> {
    cluster_entries(pieces(s, ';'))
}

/// Members as (id, address).
pub open spec fn member_views(ms: Seq<ClusterMember>) -> Seq<(u64, Seq<char>)> {
    ms.map_values(|m: ClusterMember| (m.id, m.address@))
}

/// The settings that the arguments from `i` on give, starting from `index`,
/// `http` and `cluster`: `--node $index`, `--http $address` and
/// `--cluster $list`, the last of which adds to the members already given.
pub open spec fn read_args(
    args: Seq<Seq<char>>,
    i: int,
    index: usize,
    http: Seq<char>,
    cluster: Seq<(u64, Seq<char>)>,
) -> Result<(usize, Seq<char>, Seq<(u64, Seq<char>)>), ConfigError>
    decreases args.len() - i,
{
    if i < 0 || i >= args.len() {
        Ok((index, http, cluster))
    } else if args[i] != "--node"@ && args[i] != "--http"@ && args[i] != "--cluster"@ {
        Err(ConfigError::UnknownParameter)
    } else if i + 1 >= args.len() {
        Err(ConfigError::MissingValue)
    } else if args[i] == "--node"@ {
        match decimal(encode_utf8(args[i + 1])) {
            Some(n) => if n <= usize::MAX {
                read_args(args, i + 2, n as usize, http, cluster)
            } else {
                Err(ConfigError::BadNode)
            },
            None => Err(ConfigError::BadNode),
        }
    } else if args[i] == "--http"@ {
        read_args(args, i + 2, index, args[i + 1], cluster)
    } else {
        match cluster_list(args[i + 1]) {
            Ok(ms) => read_args(args, i + 2, index, http, cluster + ms),
            Err(e) => Err(e),
        }
    }
}

/// The settings that a command line gives, once the required ones are checked:
/// the node's position (which counts from 1), the HTTP address, the cluster.
pub open spec fn config_of(args: Seq<Seq<char>>) -> Result<(usize, Seq<char>, Seq<(u64, Seq<char>)>), ConfigError> {
    match read_args(args, 0, 0, Seq::empty(), Seq::empty()) {
        Ok((index, http, cluster)) => if index == 0 {
            Err(ConfigError::MissingNode)
        } else if http.len() == 0 {
            Err(ConfigError::MissingHttp)
        } else if cluster.len() == 0 {
            Err(ConfigError::MissingCluster)
        } else {
            Ok((index, http, cluster))
        },
        Err(e) => Err(e),
    }
}

/// Whether two strings hold the same characters.
fn same_text(a: &str, b: &str) -> (r: bool)
    ensures
        r == (a@ == b@),
{
    let n = a.unicode_len();
    if n != b.unicode_len() {
        return false;
    }
    let mut i: usize = 0;
    while i < n
        invariant
            n == a@.len(),
            n == b@.len(),
            i <= n,
            forall|j: int| 0 <= j < i ==> a@[j] == b@[j],
        decreases n - i,
    {
        if a.get_char(i) != b.get_char(i) {
            return false;
        }
        i = i + 1;
    }
    assert(a@ =~= b@);
    true
}

/// Splits `s` at every `sep`.
pub fn split_on(s: &str, sep: char) -> (r: Vec<String>)
    ensures
        r@.map_values(|p: String| p@) == pieces(s@, sep),
{
    let n = s.unicode_len();
    let mut out: Vec<String> = Vec::new();
    let mut start: usize = 0;
    let mut i: usize = 0;
    assert(s@.subrange(0, 0) =~= Seq::<char>::empty());
    assert(out@.map_values(|p: String| p@).push(s@.subrange(0, 0)) =~= seq![Seq::<char>::empty()]);
    while i < n
        invariant
            n == s@.len(),
            start <= i <= n,
            out@.map_values(|p: String| p@).push(s@.subrange(start as int, i as int)) == pieces(
                s@.subrange(0, i as int),
                sep,
            ),
        decreases n - i,
    {
        let c = s.get_char(i);
        let ghost before = out@.map_values(|p: String| p@);
        assert(s@.subrange(0, i + 1).drop_last() =~= s@.subrange(0, i as int));
        if c == sep {
            let piece = s.substring_char(start, i).to_owned();
            out.push(piece);
            assert(out@.map_values(|p: String| p@) =~= before.push(s@.subrange(start as int, i as int)));
            start = i + 1;
            assert(s@.subrange(start as int, i + 1) =~= Seq::<char>::empty());
        } else {
            assert(s@.subrange(start as int, i + 1) =~= s@.subrange(start as int, i as int).push(c));
            assert(before.push(s@.subrange(start as int, i + 1)) =~= before.push(
                s@.subrange(start as int, i as int),
            ).update(before.len() as int, s@.subrange(start as int, i as int).push(c)));
        }
        i = i + 1;
    }
    let last = s.substring_char(start, n).to_owned();
    let ghost before = out@.map_values(|p: String| p@);
    out.push(last);
    assert(out@.map_values(|p: String| p@) =~= before.push(s@.subrange(start as int, n as int)));
    assert(s@.subrange(0, n as int) =~= s@);
    out
}

/// Reads one cluster entry `$id,$address`.
fn parse_entry(piece: &String) -> (r: Result<ClusterMember, ConfigError>)
    ensures
        match cluster_entry(piece@) {
            Ok((id, address)) => r is Ok && r->Ok_0.id == id && r->Ok_0.address@ == address
                && r->Ok_0.match_index == 0 && r->Ok_0.next_index == 0,
            Err(e) => r == Err::<ClusterMember, ConfigError>(e),
        },
{
    let f = split_on(piece.as_str(), ',');
    assert(f@.len() == pieces(piece@, ',').len());
    if f.len() != 2 {
        return Err(ConfigError::BadClusterEntry);
    }
    assert(f@[0]@ == pieces(piece@, ',')[0]);
    assert(f@[1]@ == pieces(piece@, ',')[1]);
    match parse_decimal(f[0].as_str().as_bytes()) {
        Some(id) => Ok(ClusterMember::new(id, f[1].clone())),
        None => Err(ConfigError::BadClusterId),
    }
}

/// Reads a cluster list `$id,$address;...;$id,$address`.
pub fn parse_cluster(s: &str) -> (r: Result<Vec<ClusterMember>, ConfigError>)
    ensures
        match cluster_list(s@) {
            Ok(ms) => r is Ok && member_views(r->Ok_0@) == ms && forall|i: int|
                0 <= i < r->Ok_0@.len() ==> (#[trigger] r->Ok_0@[i]).match_index == 0
                    && r->Ok_0@[i].next_index == 0,
            Err(e) => r == Err::<Vec<ClusterMember>, ConfigError>(e),
        },
{
    let ps = split_on(s, ';');
    let ghost pv = ps@.map_values(|p: String| p@);
    let mut out: Vec<ClusterMember> = Vec::new();
    let mut i: usize = 0;
    assert(pv.subrange(0, 0) =~= Seq::<Seq<char>>::empty());
    assert(member_views(out@) =~= Seq::<(u64, Seq<char>)>::empty());
    while i < ps.len()
        invariant
            i <= ps@.len(),
            pv == ps@.map_values(|p: String| p@),
            pv == pieces(s@, ';'),
            cluster_entries(pv.subrange(0, i as int)) == Ok::<Seq<(u64, Seq<char>)>, ConfigError>(
                member_views(out@),
            ),
            forall|j: int|
                0 <= j < out@.len() ==> (#[trigger] out@[j]).match_index == 0 && out@[j].next_index
                    == 0,
        decreases ps@.len() - i,
    {
        assert(pv.subrange(0, i + 1).drop_last() =~= pv.subrange(0, i as int));
        assert(pv.subrange(0, i + 1).last() == ps@[i as int]@);
        match parse_entry(&ps[i]) {
            Ok(m) => {
                let ghost before = out@;
                out.push(m);
                assert(member_views(out@) =~= member_views(before).push((m.id, m.address@)));
            },
            Err(e) => {
                proof {
                    lemma_entries_error_sticks(pv, i as int + 1);
                }
                return Err(e);
            },
        }
        i = i + 1;
    }
    assert(pv.subrange(0, i as int) =~= pv);
    Ok(out)
}

/// Once a prefix of the entries holds an error, the whole list does.
proof fn lemma_entries_error_sticks(ps: Seq<Seq<char>>, i: int)
    requires
        0 <= i <= ps.len(),
        cluster_entries(ps.subrange(0, i)) is Err,
    ensures
        cluster_entries(ps) == cluster_entries(ps.subrange(0, i)),
    decreases ps.len() - i,
{
    if i < ps.len() {
        assert(ps.subrange(0, i + 1).drop_last() =~= ps.subrange(0, i));
        lemma_entries_error_sticks(ps, i + 1);
    } else {
        assert(ps.subrange(0, i) =~= ps);
    }
}

impl Config {
    /// Reads the command-line arguments (the program name left out) into a
    /// configuration, and checks that the required settings were given.
    pub fn new(args: &Vec<String>) -> (r: Result<Config, ConfigError>)
        ensures
            match config_of(args@.map_values(|a: String| a@)) {
                Ok((index, http, cluster)) => r is Ok && r->Ok_0.index == index && r->Ok_0.http@
                    == http && member_views(r->Ok_0.cluster@) == cluster && r->Ok_0.id@.len()
                    == 0 && r->Ok_0.address@.len() == 0,
                Err(e) => r == Err::<Config, ConfigError>(e),
            },
    {
        let ghost av = args@.map_values(|a: String| a@);
        let mut config = Config {
            index: 0,
            id: String::new(),
            address: String::new(),
            http: String::new(),
            cluster: Vec::new(),
        };
        assert(member_views(config.cluster@) =~= Seq::<(u64, Seq<char>)>::empty());
        let mut i: usize = 0;
        while i < args.len()
            invariant
                i <= args@.len(),
                av == args@.map_values(|a: String| a@),
                config.id@.len() == 0,
                config.address@.len() == 0,
                read_args(av, 0, 0, Seq::empty(), Seq::empty()) == read_args(
                    av,
                    i as int,
                    config.index,
                    config.http@,
                    member_views(config.cluster@),
                ),
            decreases args@.len() - i,
        {
            let arg = args[i].as_str();
            let is_node = same_text(arg, "--node");
            let is_http = same_text(arg, "--http");
            let is_cluster = same_text(arg, "--cluster");
            if !is_node && !is_http && !is_cluster {
                return Err(ConfigError::UnknownParameter);
            }
            if i + 1 >= args.len() {
                return Err(ConfigError::MissingValue);
            }
            let value = &args[i + 1];
            if is_node {
                match parse_decimal(value.as_str().as_bytes()) {
                    Some(n) => {
                        if n > usize::MAX as u64 {
                            return Err(ConfigError::BadNode);
                        }
                        config.index = n as usize;
                    },
                    None => return Err(ConfigError::BadNode),
                }
            } else if is_http {
                config.http = value.clone();
            } else {
                match parse_cluster(value.as_str()) {
                    Ok(mut members) => {
                        let ghost before = config.cluster@;
                        let ghost added = members@;
                        config.cluster.append(&mut members);
                        assert(member_views(config.cluster@) =~= member_views(before)
                            + member_views(added));
                    },
                    Err(e) => return Err(e),
                }
            }
            i = i + 2;
        }
        match config.check() {
            Ok(()) => Ok(config),
            Err(e) => Err(e),
        }
    }

    /// Checks that the required settings were given, in order: the node's
    /// position (which counts from 1), the HTTP address, and the cluster.
    pub fn check(&self) -> (r: Result<(), ConfigError>)
        ensures
            r == if self.index == 0 {
                Err(ConfigError::MissingNode)
            } else if self.http@.len() == 0 {
                Err(ConfigError::MissingHttp)
            } else if self.cluster@.len() == 0 {
                Err(ConfigError::MissingCluster)
            } else {
                Ok(())
            },
    {
        if self.index == 0 {
            return Err(ConfigError::MissingNode);
        }
        if self.http.as_str().unicode_len() == 0 {
            return Err(ConfigError::MissingHttp);
        }
        if self.cluster.len() == 0 {
            return Err(ConfigError::MissingCluster);
        }
        Ok(())
    }
}

} // verus!
