//! Docker engine access: failures, listing filters and aggregations of the
//! engine's answers.

use vstd::prelude::*;

use crate::tagged_map::{TaggedMap, lookup, law_lookup_after_insert};
use crate::text::{contains_ignoring_case, contains_text, lowercase, opt_view, trim_chars, trimmed, string_of};

verus! {

/// A failure to talk to the Docker engine.
#[derive(Debug)]
pub enum DockerError {
    Connection(String),
    Request(String),
    NotFound(String),
    Conflict(String),
    InvalidResponse(String),
}

/// `a` followed by `b`.
pub fn concat(a: &str, b: &str) -> (r: String)
    ensures
        r@ == a@ + b@,
{
    let mut r = a.to_owned();
    r.append(b);
    r
}

impl DockerError {
    /// The message the failure carries.
    pub open spec fn message(self) -> Seq<char> {
        match self {
            DockerError::Connection(m) => m@,
            DockerError::Request(m) => m@,
            DockerError::NotFound(m) => m@,
            DockerError::Conflict(m) => m@,
            DockerError::InvalidResponse(m) => m@,
        }
    }

    /// How a failure is told: a phrase naming its kind, a colon and its message.
    pub fn describe(&self) -> (r: String)
        ensures
            r@ == match *self {
                DockerError::Connection(m) => "Docker 连接失败: "@ + m@,
                DockerError::Request(m) => "Docker 请求失败: "@ + m@,
                DockerError::NotFound(m) => "Docker 资源不存在: "@ + m@,
                DockerError::Conflict(m) => "Docker 资源状态冲突: "@ + m@,
                DockerError::InvalidResponse(m) => "Docker 响应无效: "@ + m@,
            },
    {
        match self {
            DockerError::Connection(m) => concat("Docker 连接失败: ", m.as_str()),
            DockerError::Request(m) => concat("Docker 请求失败: ", m.as_str()),
            DockerError::NotFound(m) => concat("Docker 资源不存在: ", m.as_str()),
            DockerError::Conflict(m) => concat("Docker 资源状态冲突: ", m.as_str()),
            DockerError::InvalidResponse(m) => concat("Docker 响应无效: ", m.as_str()),
        }
    }
}

/// Checks an engine address before connecting: a blank one is refused.
pub fn check_docker_host(host: &str) -> (r: Result<(), DockerError>)
    ensures
        trimmed(host@).len() == 0 ==> (r matches Err(DockerError::Connection(m)) && m@ == "Docker 地址不能为空"@),
        trimmed(host@).len() > 0 ==> r is Ok,
{
    if trim_chars(host).len() == 0 {
        return Err(DockerError::Connection("Docker 地址不能为空".to_owned()));
    }
    Ok(())
}

/// The failure for an engine error answer: a 404 is a missing resource, a
/// 409 a conflict, anything else a failed request. `status` and `message`
/// are those of an error answer of the engine; `description` is how the
/// error is told. The message starts with the operation.
pub fn docker_failure(operation: &str, status: Option<u16>, message: &str, description: &str) -> (e: DockerError)
    ensures
        status == Some(404u16) ==> (e matches DockerError::NotFound(m) && m@ == operation@ + ": "@ + message@),
        status == Some(409u16) ==> (e matches DockerError::Conflict(m) && m@ == operation@ + ": "@ + message@),
        status != Some(404u16) && status != Some(409u16) ==> (e matches DockerError::Request(m) && m@ == operation@
            + ": "@ + description@),
{
    let prefix = concat(operation, ": ");
    match status {
        Some(404) => DockerError::NotFound(concat(prefix.as_str(), message)),
        Some(409) => DockerError::Conflict(concat(prefix.as_str(), message)),
        _ => DockerError::Request(concat(prefix.as_str(), description)),
    }
}

/// The engine version, which must be present.
pub fn version_or_error(version: Option<String>) -> (r: Result<String, DockerError>)
    ensures
        version is None ==> (r matches Err(DockerError::InvalidResponse(m)) && m@ == "Docker 版本为空"@),
        version matches Some(v) ==> (r matches Ok(x) && x@ == v@),
{
    match version {
        Some(v) => Ok(v),
        None => Err(DockerError::InvalidResponse("Docker 版本为空".to_owned())),
    }
}

/// A listing filter: the trimmed text, when it is not blank.
pub open spec fn filter_text(query: Option<Seq<char>>) -> Option<Seq<char>> {
    match query {
        Some(q) => if trimmed(q).len() > 0 { Some(trimmed(q)) } else { None },
        None => None,
    }
}

/// A listing filter from an optional text: trimmed, and dropped when blank.
pub fn filter_value(query: Option<&str>) -> (r: Option<String>)
    ensures
        opt_view(r) == filter_text(match query { Some(q) => Some(q@), None => None }),
{
    match query {
        Some(q) => {
            let t = trim_chars(q);
            if t.len() > 0 {
                Some(string_of(&t))
            } else {
                None
            }
        },
        None => None,
    }
}

/// `text` contains `query`, both lower-cased.
pub open spec fn matches_query(text: Seq<char>, query: Seq<char>) -> bool {
    contains_text(lowercase(text), lowercase(query))
}

/// One of `items` contains `query`, both lower-cased.
pub open spec fn any_matches(items: Seq<String>, query: Seq<char>) -> bool {
    exists|i: int| 0 <= i < items.len() && matches_query(#[trigger] items[i]@, query)
}

/// Whether one of `items` contains `query`, ignoring case.
pub fn any_item_matches(items: &Vec<String>, query: &str) -> (r: bool)
    ensures
        r == any_matches(items@, query@),
{
    let mut i: usize = 0;
    while i < items.len()
        invariant
            i <= items@.len(),
            forall|k: int| 0 <= k < i ==> !matches_query(#[trigger] items@[k]@, query@),
        decreases items.len() - i,
    {
        if contains_ignoring_case(items[i].as_str(), query) {
            assert(matches_query(items@[i as int]@, query@));
            return true;
        }
        i += 1;
    }
    false
}

/// A container is kept by a listing query when its id, its image or one
/// of its names contains the query, ignoring case.
pub open spec fn container_query_hit(
    query: Seq<char>,
    id: Option<String>,
    image: Option<String>,
    names: Option<Vec<String>>,
) -> bool {
    ||| (id matches Some(x) && matches_query(x@, query))
    ||| (image matches Some(x) && matches_query(x@, query))
    ||| (names matches Some(ns) && any_matches(ns@, query))
}

/// Law of the container search: a container is kept exactly when its id,
/// its image or one of its names contains the query, ignoring case; in
/// particular a container whose id contains the query is always kept.
pub proof fn law_container_search(
    query: Seq<char>,
    id: Option<String>,
    image: Option<String>,
    names: Option<Vec<String>>,
)
    ensures
        container_query_hit(query, id, image, names) <==> {
            ||| (id matches Some(x) && contains_text(lowercase(x@), lowercase(query)))
            ||| (image matches Some(x) && contains_text(lowercase(x@), lowercase(query)))
            ||| (names matches Some(ns) && exists|i: int|
                0 <= i < ns@.len() && contains_text(lowercase(#[trigger] ns@[i]@), lowercase(query)))
        },
        (id matches Some(x) && contains_text(lowercase(x@), lowercase(query))) ==> container_query_hit(
            query,
            id,
            image,
            names,
        ),
{
}

/// Law of the image search: an image is kept exactly when its id, one of
/// its tags or one of its digests contains the query, ignoring case.
pub proof fn law_image_search(query: Seq<char>, id: Seq<char>, tags: Seq<String>, digests: Seq<String>)
    ensures
        image_query_hit(query, id, tags, digests) <==> {
            ||| contains_text(lowercase(id), lowercase(query))
            ||| (exists|i: int| 0 <= i < tags.len() && contains_text(lowercase(#[trigger] tags[i]@), lowercase(query)))
            ||| (exists|i: int|
                0 <= i < digests.len() && contains_text(lowercase(#[trigger] digests[i]@), lowercase(query)))
        },
{
}

/// Whether a container is kept by a listing query.
pub fn container_matches(
    query: &str,
    id: &Option<String>,
    image: &Option<String>,
    names: &Option<Vec<String>>,
) -> (r: bool)
    ensures
        r == container_query_hit(query@, *id, *image, *names),
        r <==> {
            ||| (id matches Some(x) && contains_text(lowercase(x@), lowercase(query@)))
            ||| (image matches Some(x) && contains_text(lowercase(x@), lowercase(query@)))
            ||| (names matches Some(ns) && exists|i: int|
                0 <= i < ns@.len() && contains_text(lowercase(#[trigger] ns@[i]@), lowercase(query@)))
        },
{
    let by_id = match id {
        Some(x) => contains_ignoring_case(x.as_str(), query),
        None => false,
    };
    let by_image = match image {
        Some(x) => contains_ignoring_case(x.as_str(), query),
        None => false,
    };
    let by_name = match names {
        Some(ns) => any_item_matches(ns, query),
        None => false,
    };
    by_id || by_image || by_name
}

/// An image is kept by a listing query when its id, one of its tags or
/// one of its digests contains the query, ignoring case.
pub open spec fn image_query_hit(query: Seq<char>, id: Seq<char>, tags: Seq<String>, digests: Seq<String>) -> bool {
    matches_query(id, query) || any_matches(tags, query) || any_matches(digests, query)
}

/// Whether an image is kept by a listing query.
pub fn image_matches(query: &str, id: &str, tags: &Vec<String>, digests: &Vec<String>) -> (r: bool)
    ensures
        r == image_query_hit(query@, id@, tags@, digests@),
        r <==> {
            ||| contains_text(lowercase(id@), lowercase(query@))
            ||| (exists|i: int| 0 <= i < tags@.len() && contains_text(lowercase(#[trigger] tags@[i]@), lowercase(query@)))
            ||| (exists|i: int|
                0 <= i < digests@.len() && contains_text(lowercase(#[trigger] digests@[i]@), lowercase(query@)))
        },
{
    contains_ignoring_case(id, query) || any_item_matches(tags, query) || any_item_matches(digests, query)
}

/// A node is a swarm manager when it says control is available.
pub fn swarm_manager(control_available: Option<bool>) -> (r: bool)
    ensures
        r == (control_available == Some(true)),
{
    match control_available {
        Some(c) => c,
        None => false,
    }
}

/// How often `name` occurs in `names`.
pub open spec fn occurrences(names: Seq<String>, name: Seq<char>) -> nat
    decreases names.len(),
{
    if names.len() == 0 {
        0
    } else {
        occurrences(names.drop_last(), name) + if names.last()@ == name { 1nat } else { 0nat }
    }
}

/// How often `name` occurs among the networks of all containers.
pub open spec fn network_occurrences(networks: Seq<Option<Vec<String>>>, name: Seq<char>) -> nat
    decreases networks.len(),
{
    if networks.len() == 0 {
        0
    } else {
        network_occurrences(networks.drop_last(), name) + match networks.last() {
            Some(v) => occurrences(v@, name),
            None => 0,
        }
    }
}

/// A count, capped at the largest `u64`.
pub open spec fn capped(n: nat) -> u64 {
    if n > u64::MAX { u64::MAX } else { n as u64 }
}

/// The counts hold, for each network that occurs, how often it occurs.
pub open spec fn counts_model(
    m: Seq<(Seq<char>, u64, u64)>,
    networks: Seq<Option<Vec<String>>>,
    name: Seq<char>,
) -> bool {
    lookup(m, name) == if network_occurrences(networks, name) > 0 {
        Some((capped(network_occurrences(networks, name)), 0u64))
    } else {
        None
    }
}

/// How many containers are attached to each network: for every network
/// that occurs in a container's networks, the number of its occurrences.
pub fn network_container_counts(networks: &Vec<Option<Vec<String>>>) -> (counts: TaggedMap<u64>)
    ensures
        counts.wf(),
        forall|name: Seq<char>| counts_model(counts.view(), networks@, name),
{
    let mut counts: TaggedMap<u64> = TaggedMap::new();
    let mut i: usize = 0;
    assert(networks@.take(0) =~= Seq::<Option<Vec<String>>>::empty());
    while i < networks.len()
        invariant
            i <= networks@.len(),
            counts.wf(),
            forall|name: Seq<char>| counts_model(counts.view(), networks@.take(i as int), name),
        decreases networks.len() - i,
    {
        let ghost before = networks@.take(i as int);
        let ghost after = networks@.take(i + 1);
        assert(after.drop_last() =~= before);
        assert(after.last() == networks@[i as int]);
        match &networks[i] {
            None => {
                assert forall|name: Seq<char>| #[trigger] counts_model(counts.view(), after, name) by {
                    assert(counts_model(counts.view(), before, name));
                    assert(network_occurrences(after, name) == network_occurrences(before, name));
                }
            },
            Some(names) => {
                let mut j: usize = 0;
                assert(names@.take(0) =~= Seq::<String>::empty());
                assert forall|name: Seq<char>| #[trigger] lookup(counts.view(), name) == if network_occurrences(before, name)
                    + occurrences(names@.take(0), name) > 0 {
                    Some((capped(network_occurrences(before, name) + occurrences(names@.take(0), name)), 0u64))
                } else {
                    None
                } by {
                    assert(counts_model(counts.view(), before, name));
                }
                while j < names.len()
                    invariant
                        j <= names@.len(),
                        counts.wf(),
                        forall|name: Seq<char>| lookup(counts.view(), name) == if network_occurrences(before, name)
                            + occurrences(names@.take(j as int), name) > 0 {
                            Some((capped(network_occurrences(before, name) + occurrences(names@.take(j as int), name)), 0u64))
                        } else {
                            None
                        },
                    decreases names.len() - j,
                {
                    let ghost pre = counts.view();
                    let ghost upto = names@.take(j + 1);
                    assert(upto.drop_last() =~= names@.take(j as int));
                    let key = &names[j];
                    let next = match counts.get(key.as_str()) {
                        Some(c) => c.saturating_add(1),
                        None => 1,
                    };
                    let _ = counts.insert(key.clone(), next, 0);
                    assert forall|name: Seq<char>| #[trigger] lookup(counts.view(), name) == if network_occurrences(before, name)
                        + occurrences(upto, name) > 0 {
                        Some((capped(network_occurrences(before, name) + occurrences(upto, name)), 0u64))
                    } else {
                        None
                    } by {
                        law_lookup_after_insert(pre, key@, next, 0, name);
                    }
                    j += 1;
                }
                assert(names@.take(names@.len() as int) =~= names@);
                assert forall|name: Seq<char>| #[trigger] counts_model(counts.view(), after, name) by {
                    assert(network_occurrences(after, name) == network_occurrences(before, name)
                        + occurrences(names@, name));
                }
            },
        }
        i += 1;
    }
    assert(networks@.take(networks@.len() as int) =~= networks@);
    counts
}

} // verus!
