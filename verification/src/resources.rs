//! Docker resources of an environment: request validation and the views
//! of containers, images, volumes and networks that the API answers with.

use std::collections::HashMap;

use vstd::prelude::*;

use crate::agent::{ContainerAction, NetworkConfig, VolumeConfig, action_named};
use crate::tagged_map::{TaggedMap, lookup};
use crate::docker::DockerError;
use crate::error::{
    ApiError, STATUS_BAD_GATEWAY, STATUS_CONFLICT, STATUS_INTERNAL_SERVER_ERROR, STATUS_NOT_FOUND,
    STATUS_UNPROCESSABLE_ENTITY,
};
use crate::text::{law_trimmed_idempotent, before_last, split_before_last, any_control, find_pair_value, pair_value, strip_leading, without_leading, has_ctrl, opt_view, same_text, string_of, trim_chars, trimmed};

verus! {

/// Longest filter, resource name or option text, in characters.
pub const MAX_FILTER_LENGTH: usize = 128;

/// Longest image reference, in characters.
pub const MAX_REFERENCE_LENGTH: usize = 256;

/// Most options of a volume.
pub const MAX_OPTIONS: usize = 32;

/// Query of a container listing.
#[derive(Debug)]
pub struct ContainerListQuery {
    pub all: Option<bool>,
    pub status: Option<String>,
    pub q: Option<String>,
}

/// Query of an image, volume or network listing.
#[derive(Debug)]
pub struct ResourceListQuery {
    pub q: Option<String>,
    pub dangling: Option<bool>,
}

/// Query of a stack listing.
#[derive(Debug)]
pub struct StackListQuery {
    pub q: Option<String>,
}

/// Request to pull an image.
#[derive(Debug)]
pub struct PullImageRequest {
    pub reference: String,
}

/// Request to create a volume.
#[derive(Debug)]
pub struct CreateVolumeRequest {
    pub name: String,
    pub driver: Option<String>,
    pub options: Option<HashMap<String, String>>,
}

/// Request to create a network.
#[derive(Debug)]
pub struct CreateNetworkRequest {
    pub name: String,
    pub driver: Option<String>,
    pub internal: Option<bool>,
}

/// Answer to a change of a resource: its id, when there is one.
#[derive(Debug)]
pub struct MutationResponse {
    pub id: Option<String>,
}

/// A listing filter after validation: `None` when blank.
pub open spec fn filter_outcome(value: Seq<char>) -> Option<Seq<char>> {
    if trimmed(value).len() == 0 { None } else { Some(trimmed(value)) }
}

/// Validates a listing filter: trimmed, at most 128 characters, and
/// dropped when blank.
pub fn validate_filter(value: Option<String>) -> (r: Result<Option<String>, ApiError>)
    ensures
        value is None ==> r matches Ok(None),
        value is Some && trimmed(value.unwrap()@).len() > MAX_FILTER_LENGTH ==> (r matches Err(e) && e.is(
            STATUS_UNPROCESSABLE_ENTITY,
            "筛选条件过长"@,
        )),
        value is Some && trimmed(value.unwrap()@).len() <= MAX_FILTER_LENGTH ==> (r matches Ok(f) && opt_view(f)
            == filter_outcome(value.unwrap()@)),
{
    let value = match value {
        Some(v) => v,
        None => {
            return Ok(None);
        },
    };
    let chars = trim_chars(value.as_str());
    if chars.len() > MAX_FILTER_LENGTH {
        return Err(ApiError::unprocessable_entity("筛选条件过长".to_owned()));
    }
    if chars.len() == 0 {
        Ok(None)
    } else {
        Ok(Some(string_of(&chars)))
    }
}

/// A kept filter is kept again, unchanged: filtering by the validated
/// value is filtering by the same text.
pub proof fn law_filter_is_stable(value: Seq<char>)
    requires
        filter_outcome(value) is Some,
    ensures
        filter_outcome(filter_outcome(value).unwrap()) == filter_outcome(value),
{
    law_trimmed_idempotent(value);
}

/// An acceptable (already trimmed) resource name.
pub open spec fn valid_resource_name(t: Seq<char>) -> bool {
    0 < t.len() <= MAX_FILTER_LENGTH && !has_ctrl(t)
}

/// Validates a resource name: trimmed, 1 to 128 characters, no control
/// characters; the error message is the label followed by "无效".
pub fn validate_resource_name(value: String, label: &str) -> (r: Result<String, ApiError>)
    ensures
        valid_resource_name(trimmed(value@)) ==> (r matches Ok(n) && n@ == trimmed(value@)),
        !valid_resource_name(trimmed(value@)) ==> (r matches Err(e) && e.is(
            STATUS_UNPROCESSABLE_ENTITY,
            label@ + "无效"@,
        )),
{
    let chars = trim_chars(value.as_str());
    if chars.len() == 0 || chars.len() > MAX_FILTER_LENGTH || any_control(&chars) {
        return Err(ApiError::unprocessable_entity(crate::docker::concat(label, "无效")));
    }
    Ok(string_of(&chars))
}

/// An accepted resource name is accepted again, unchanged.
pub proof fn law_accepted_resource_name_is_stable(value: Seq<char>)
    requires
        valid_resource_name(trimmed(value)),
    ensures
        valid_resource_name(trimmed(trimmed(value))),
        trimmed(trimmed(value)) == trimmed(value),
{
    law_trimmed_idempotent(value);
}

/// Validates an optional resource name; a missing one stays missing.
pub fn validate_optional_name(value: Option<String>, label: &str) -> (r: Result<Option<String>, ApiError>)
    ensures
        value is None ==> r matches Ok(None),
        value is Some && valid_resource_name(trimmed(value.unwrap()@)) ==> (r matches Ok(Some(n)) && n@ == trimmed(value.unwrap()@)),
        value is Some && !valid_resource_name(trimmed(value.unwrap()@)) ==> (r matches Err(e) && e.is(
            STATUS_UNPROCESSABLE_ENTITY,
            label@ + "无效"@,
        )),
{
    match value {
        Some(v) => match validate_resource_name(v, label) {
            Ok(n) => Ok(Some(n)),
            Err(e) => Err(e),
        },
        None => Ok(None),
    }
}

/// An acceptable volume option: a non-empty key, key and value of at most
/// 128 characters, neither holding a control character.
pub open spec fn valid_option(key: Seq<char>, value: Seq<char>) -> bool {
    &&& 0 < key.len() <= MAX_FILTER_LENGTH
    &&& value.len() <= MAX_FILTER_LENGTH
    &&& !has_ctrl(key)
    &&& !has_ctrl(value)
}

/// Acceptable volume options: at most 32, each acceptable.
pub open spec fn valid_options(m: Map<String, String>) -> bool {
    m.len() <= MAX_OPTIONS && forall|k: String| #[trigger] m.contains_key(k) ==> valid_option(k@, m[k]@)
}

/// Walks the map with `HashMap::iter`, cloning each pair: every key-value
/// pair of the map, each once, in the map's own (unspecified) order.
#[verifier::external_body]
fn string_map_entries(m: &HashMap<String, String>) -> (entries: Vec<(String, String)>)
    ensures
        entries@.len() == m@.len(),
        forall|i: int| 0 <= i < entries@.len() ==> #[trigger] m@.contains_key(entries@[i].0) && m@[entries@[i].0]
            == entries@[i].1,
        forall|k: String| #[trigger] m@.contains_key(k) ==> exists|i: int| 0 <= i < entries@.len() && entries@[i].0 == k,
{
    m.iter().map(|(k, v)| (k.clone(), v.clone())).collect()
}

/// Validates volume options: at most 32, each acceptable.
pub fn validate_options(options: Option<HashMap<String, String>>) -> (r: Result<Option<HashMap<String, String>>, ApiError>)
    ensures
        options is None ==> r matches Ok(None),
        options is Some && valid_options(options.unwrap()@) ==> (r matches Ok(Some(x)) && x@ == options.unwrap()@),
        options is Some && !valid_options(options.unwrap()@) ==> (r matches Err(e) && e.is(
            STATUS_UNPROCESSABLE_ENTITY,
            "资源选项无效"@,
        )),
{
    let map = match options {
        Some(m) => m,
        None => {
            return Ok(None);
        },
    };
    let entries = string_map_entries(&map);
    if entries.len() > MAX_OPTIONS {
        return Err(ApiError::unprocessable_entity("资源选项无效".to_owned()));
    }
    let mut i: usize = 0;
    while i < entries.len()
        invariant
            i <= entries@.len(),
            options == Some(map),
            entries@.len() == map@.len(),
            forall|j: int| 0 <= j < entries@.len() ==> #[trigger] map@.contains_key(entries@[j].0) && map@[entries@[j].0]
                == entries@[j].1,
            forall|j: int| 0 <= j < i ==> valid_option(#[trigger] entries@[j].0@, entries@[j].1@),
        decreases entries.len() - i,
    {
        let key = crate::text::chars_of(entries[i].0.as_str());
        let value = crate::text::chars_of(entries[i].1.as_str());
        if key.len() == 0 || key.len() > MAX_FILTER_LENGTH || value.len() > MAX_FILTER_LENGTH || any_control(&key)
            || any_control(&value) {
            assert(!valid_option(entries@[i as int].0@, entries@[i as int].1@));
            assert(map@.contains_key(entries@[i as int].0));
            return Err(ApiError::unprocessable_entity("资源选项无效".to_owned()));
        }
        i += 1;
    }
    assert forall|k: String| #[trigger] map@.contains_key(k) implies valid_option(k@, map@[k]@) by {
        let j = choose|j: int| 0 <= j < entries@.len() && entries@[j].0 == k;
        assert(valid_option(entries@[j].0@, entries@[j].1@));
    }
    Ok(Some(map))
}

/// Container states a listing may be filtered by.
pub open spec fn known_container_state(s: Seq<char>) -> bool {
    s == "created"@ || s == "restarting"@ || s == "running"@ || s == "removing"@ || s == "paused"@ || s
        == "exited"@ || s == "dead"@ || s == "stopping"@
}

/// Validates the state filter of a container listing: trimmed, it must be
/// a known container state.
pub fn validate_container_status(status: Option<String>) -> (r: Result<Option<String>, ApiError>)
    ensures
        status is None ==> r matches Ok(None),
        status is Some && known_container_state(trimmed(status.unwrap()@)) ==> (r matches Ok(Some(x)) && x@
            == trimmed(status.unwrap()@)),
        status is Some && !known_container_state(trimmed(status.unwrap()@)) ==> (r matches Err(e) && e.is(
            STATUS_UNPROCESSABLE_ENTITY,
            "容器状态筛选条件无效"@,
        )),
{
    let status = match status {
        Some(s) => s,
        None => {
            return Ok(None);
        },
    };
    let t = string_of(&trim_chars(status.as_str()));
    let s = t.as_str();
    if same_text(s, "created") || same_text(s, "restarting") || same_text(s, "running") || same_text(
        s,
        "removing",
    ) || same_text(s, "paused") || same_text(s, "exited") || same_text(s, "dead") || same_text(s, "stopping") {
        Ok(Some(t))
    } else {
        Err(ApiError::unprocessable_entity("容器状态筛选条件无效".to_owned()))
    }
}

/// Checks the action of a container-action request.
pub fn check_container_action(action: &str) -> (r: Result<ContainerAction, ApiError>)
    ensures
        match action_named(action@) {
            Some(a) => r matches Ok(x) && x == a,
            None => r matches Err(e) && e.is(STATUS_UNPROCESSABLE_ENTITY, "不支持的容器操作"@),
        },
{
    match ContainerAction::parse(action) {
        Some(a) => Ok(a),
        None => Err(ApiError::unprocessable_entity("不支持的容器操作".to_owned())),
    }
}

/// An acceptable (already trimmed) image reference.
pub open spec fn valid_reference(t: Seq<char>) -> bool {
    0 < t.len() <= MAX_REFERENCE_LENGTH && !has_ctrl(t)
}

/// Validates an image reference: trimmed, 1 to 256 characters, no control
/// characters.
pub fn validate_reference(value: String) -> (r: Result<String, ApiError>)
    ensures
        valid_reference(trimmed(value@)) ==> (r matches Ok(x) && x@ == trimmed(value@)),
        !valid_reference(trimmed(value@)) ==> (r matches Err(e) && e.is(STATUS_UNPROCESSABLE_ENTITY, "镜像引用无效"@)),
{
    let chars = trim_chars(value.as_str());
    if chars.len() == 0 || chars.len() > MAX_REFERENCE_LENGTH || any_control(&chars) {
        return Err(ApiError::unprocessable_entity("镜像引用无效".to_owned()));
    }
    Ok(string_of(&chars))
}

/// The answer for an engine failure: a missing resource, a conflict, or
/// else an unavailable engine.
pub fn map_docker_error(error: DockerError) -> (e: ApiError)
    ensures
        error is NotFound ==> e.is(STATUS_NOT_FOUND, "Docker 资源不存在"@),
        error is Conflict ==> e.is(STATUS_CONFLICT, "资源当前正在使用或状态不允许此操作"@),
        !(error is NotFound) && !(error is Conflict) ==> e.is(STATUS_BAD_GATEWAY, "Docker Engine 当前不可用"@),
{
    match error {
        DockerError::NotFound(_) => ApiError::not_found("Docker 资源不存在".to_owned()),
        DockerError::Conflict(_) => ApiError::conflict("资源当前正在使用或状态不允许此操作".to_owned()),
        _ => ApiError::bad_gateway("Docker Engine 当前不可用".to_owned()),
    }
}

/// The answer when the engine did not answer in time.
pub fn docker_timed_out() -> (e: ApiError)
    ensures
        e.is(STATUS_BAD_GATEWAY, "Docker Engine 请求超时"@),
{
    ApiError::bad_gateway("Docker Engine 请求超时".to_owned())
}

/// Where the resources of an environment are reached.
#[derive(Clone, Copy, Debug, PartialEq, Eq, Structural)]
pub enum ResourceTarget {
    Local,
    Agent,
}

/// Where an environment's resources are reached, from its stored kind: a
/// missing environment, an unavailable local engine and an unknown kind
/// are errors.
pub fn resource_target(kind: Option<&str>, local_available: bool) -> (r: Result<ResourceTarget, ApiError>)
    ensures
        kind is None ==> (r matches Err(e) && e.is(STATUS_NOT_FOUND, "环境不存在"@)),
        kind is Some && kind.unwrap()@ == "local"@ && local_available ==> r == Ok::<ResourceTarget, ApiError>(ResourceTarget::Local),
        kind is Some && kind.unwrap()@ == "local"@ && !local_available ==> (r matches Err(e) && e.is(
            STATUS_BAD_GATEWAY,
            "Docker Engine 当前不可用"@,
        )),
        kind is Some && kind.unwrap()@ == "agent"@ ==> r == Ok::<ResourceTarget, ApiError>(ResourceTarget::Agent),
        kind is Some && kind.unwrap()@ != "local"@ && kind.unwrap()@ != "agent"@ ==> (r matches Err(e) && e.is(
            STATUS_INTERNAL_SERVER_ERROR,
            "环境类型无效"@,
        )),
{
    let kind = match kind {
        Some(k) => k,
        None => {
            return Err(ApiError::not_found("环境不存在".to_owned()));
        },
    };
    proof {
        reveal_strlit("local");
        reveal_strlit("agent");
        assert("local"@[0] != "agent"@[0]);
    }
    if same_text(kind, "local") {
        if local_available {
            Ok(ResourceTarget::Local)
        } else {
            Err(ApiError::bad_gateway("Docker Engine 当前不可用".to_owned()))
        }
    } else if same_text(kind, "agent") {
        Ok(ResourceTarget::Agent)
    } else {
        Err(ApiError::internal("环境类型无效".to_owned()))
    }
}

/// A published port of a container, as the engine lists it.
#[derive(Debug)]
pub struct PortSummary {
    pub private_port: u16,
    pub public_port: Option<u16>,
    pub typ: Option<String>,
}

/// A container as the engine lists it, as far as it is shown.
#[derive(Debug)]
pub struct ContainerSummary {
    pub id: Option<String>,
    pub names: Option<Vec<String>>,
    pub image: Option<String>,
    pub state: Option<String>,
    pub status: Option<String>,
    pub created: Option<i64>,
    pub ports: Option<Vec<PortSummary>>,
    pub labels: Option<Vec<(String, String)>>,
}

/// A published port as answered.
#[derive(Debug)]
pub struct ContainerPortResponse {
    pub container_port: u16,
    pub host_port: Option<u16>,
    pub protocol: String,
}

/// A container as answered.
#[derive(Debug)]
pub struct ContainerResponse {
    pub id: String,
    pub name: String,
    pub names: Vec<String>,
    pub image: Option<String>,
    pub state: String,
    pub status: Option<String>,
    pub created: Option<i64>,
    pub ports: Vec<ContainerPortResponse>,
    pub stack: Option<String>,
}

/// The label naming the swarm stack a resource belongs to.
pub open spec fn stack_label() -> Seq<char> {
    "com.docker.stack.namespace"@
}

/// The text of an optional string, or a default.
pub open spec fn text_or(o: Option<String>, default: Seq<char>) -> Seq<char> {
    match o {
        Some(s) => s@,
        None => default,
    }
}

/// A port is answered with its numbers and its protocol, `tcp` by default.
pub open spec fn shows_port(r: ContainerPortResponse, p: PortSummary) -> bool {
    r.container_port == p.private_port && r.host_port == p.public_port && r.protocol@ == text_or(p.typ, "tcp"@)
}

/// The shown names: the listed names without their leading slashes.
pub open spec fn shown_names(r: Seq<String>, names: Option<Vec<String>>) -> bool {
    let listed = match names {
        Some(v) => v@,
        None => Seq::empty(),
    };
    r.len() == listed.len() && forall|i: int| 0 <= i < r.len() ==> #[trigger] r[i]@ == without_leading(listed[i]@, '/')
}

/// How a listed container is answered: a missing id is empty; the name is
/// the first shown name, else the id; the state defaults to `unknown`; the
/// stack is the container's stack label.
pub open spec fn shows_container(r: ContainerResponse, c: ContainerSummary) -> bool {
    &&& r.id@ == text_or(c.id, Seq::empty())
    &&& shown_names(r.names@, c.names)
    &&& r.name@ == if r.names@.len() > 0 { r.names@[0]@ } else { r.id@ }
    &&& opt_view(r.image) == opt_view(c.image)
    &&& r.state@ == text_or(c.state, "unknown"@)
    &&& opt_view(r.status) == opt_view(c.status)
    &&& r.created == c.created
    &&& r.ports@.len() == match c.ports { Some(p) => p@.len(), None => 0 }
    &&& forall|i: int| 0 <= i < r.ports@.len() ==> shows_port(#[trigger] r.ports@[i], c.ports.unwrap()@[i])
    &&& opt_view(r.stack) == match c.labels {
        Some(l) => pair_value(l@, stack_label()),
        None => None,
    }
}

/// The answer for a listed container.
pub fn container_response(container: ContainerSummary) -> (r: ContainerResponse)
    ensures
        shows_container(r, container),
{
    let id = match &container.id {
        Some(x) => x.clone(),
        None => String::new(),
    };
    let mut names: Vec<String> = Vec::new();
    match &container.names {
        Some(listed) => {
            let mut i: usize = 0;
            while i < listed.len()
                invariant
                    i <= listed@.len(),
                    names@.len() == i,
                    forall|k: int| 0 <= k < i ==> #[trigger] names@[k]@ == without_leading(listed@[k]@, '/'),
                decreases listed.len() - i,
            {
                names.push(strip_leading(listed[i].as_str(), '/'));
                i += 1;
            }
        },
        None => {},
    }
    let name = if names.len() > 0 {
        names[0].clone()
    } else {
        id.clone()
    };
    let mut ports: Vec<ContainerPortResponse> = Vec::new();
    match &container.ports {
        Some(listed) => {
            let mut i: usize = 0;
            while i < listed.len()
                invariant
                    i <= listed@.len(),
                    container.ports == Some(*listed),
                    ports@.len() == i,
                    forall|k: int| 0 <= k < i ==> shows_port(#[trigger] ports@[k], listed@[k]),
                decreases listed.len() - i,
            {
                let p = &listed[i];
                let protocol = match &p.typ {
                    Some(t) => t.clone(),
                    None => "tcp".to_owned(),
                };
                ports.push(ContainerPortResponse { container_port: p.private_port, host_port: p.public_port, protocol });
                i += 1;
            }
        },
        None => {},
    }
    let stack = match &container.labels {
        Some(labels) => find_pair_value(labels, "com.docker.stack.namespace"),
        None => None,
    };
    let state = match &container.state {
        Some(s) => s.clone(),
        None => "unknown".to_owned(),
    };
    ContainerResponse {
        id,
        name,
        names,
        image: crate::text::clone_opt(&container.image),
        state,
        status: crate::text::clone_opt(&container.status),
        created: container.created,
        ports,
        stack,
    }
}

/// An image as the engine lists it.
#[derive(Debug)]
pub struct ImageSummary {
    pub id: String,
    pub repo_tags: Vec<String>,
    pub repo_digests: Vec<String>,
    pub created: i64,
    pub size: i64,
    pub containers: i64,
}

/// An image as answered.
#[derive(Debug)]
pub struct ImageResponse {
    pub id: String,
    pub repository: Option<String>,
    pub tags: Vec<String>,
    pub digests: Vec<String>,
    pub created: i64,
    pub size: i64,
    pub containers: i64,
    pub dangling: bool,
}

/// How a listed image is answered: its repository is what precedes the
/// last `:` of its first tag; it is dangling when it has no tag.
pub open spec fn shows_image(r: ImageResponse, i: ImageSummary) -> bool {
    &&& r.id@ == i.id@
    &&& opt_view(r.repository) == if i.repo_tags@.len() > 0 { before_last(i.repo_tags@[0]@, ':') } else { None }
    &&& r.tags == i.repo_tags
    &&& r.digests == i.repo_digests
    &&& r.created == i.created
    &&& r.size == i.size
    &&& r.containers == i.containers
    &&& r.dangling == (i.repo_tags@.len() == 0)
}

/// The answer for a listed image.
pub fn image_response(image: ImageSummary) -> (r: ImageResponse)
    ensures
        shows_image(r, image),
{
    let repository = if image.repo_tags.len() > 0 {
        split_before_last(image.repo_tags[0].as_str(), ':')
    } else {
        None
    };
    let dangling = image.repo_tags.len() == 0;
    ImageResponse {
        id: image.id,
        repository,
        dangling,
        tags: image.repo_tags,
        digests: image.repo_digests,
        created: image.created,
        size: image.size,
        containers: image.containers,
    }
}

/// A volume as the engine lists it.
#[derive(Debug)]
pub struct VolumeSummary {
    pub name: String,
    pub driver: String,
    pub scope: Option<String>,
    pub mountpoint: String,
    pub labels: HashMap<String, String>,
    pub ref_count: Option<i64>,
}

/// A volume as answered.
#[derive(Debug)]
pub struct VolumeResponse {
    pub name: String,
    pub driver: String,
    pub scope: Option<String>,
    pub mountpoint: String,
    pub labels: HashMap<String, String>,
    pub usage_containers: Option<u64>,
}

/// The answer for a listed volume: the number of containers using it, when
/// the engine reports a non-negative count.
pub fn volume_response(volume: VolumeSummary) -> (r: VolumeResponse)
    ensures
        r.name@ == volume.name@,
        r.driver@ == volume.driver@,
        opt_view(r.scope) == opt_view(volume.scope),
        r.mountpoint@ == volume.mountpoint@,
        r.labels@ == volume.labels@,
        r.usage_containers == match volume.ref_count {
            Some(c) => if c >= 0 { Some(c as u64) } else { None },
            None => None,
        },
{
    VolumeResponse {
        name: volume.name,
        driver: volume.driver,
        scope: volume.scope,
        mountpoint: volume.mountpoint,
        labels: volume.labels,
        usage_containers: match volume.ref_count {
            Some(c) => if c >= 0 { Some(c as u64) } else { None },
            None => None,
        },
    }
}

/// A network as the engine lists it; its IPAM configurations as pairs of
/// subnet and gateway.
#[derive(Debug)]
pub struct NetworkSummary {
    pub id: Option<String>,
    pub name: Option<String>,
    pub driver: Option<String>,
    pub scope: Option<String>,
    pub labels: Option<HashMap<String, String>>,
    pub ipam_configs: Option<Vec<(Option<String>, Option<String>)>>,
}

/// A network as answered.
#[derive(Debug)]
pub struct NetworkResponse {
    pub id: String,
    pub name: String,
    pub driver: Option<String>,
    pub scope: Option<String>,
    pub subnet: Option<String>,
    pub gateway: Option<String>,
    pub labels: HashMap<String, String>,
    pub container_count: Option<u64>,
    pub system: bool,
}

/// Networks that every engine has and that may not be removed.
pub open spec fn system_network(name: Seq<char>) -> bool {
    name == "bridge"@ || name == "host"@ || name == "none"@ || name == "ingress"@
}

/// Whether `name` is a system network.
pub fn is_system_network(name: &str) -> (r: bool)
    ensures
        r == system_network(name@),
{
    same_text(name, "bridge") || same_text(name, "host") || same_text(name, "none") || same_text(name, "ingress")
}

/// How a listed network is answered: a missing name is empty, a missing
/// id is the name; subnet and gateway come from its first IPAM configuration.
pub open spec fn shows_network(r: NetworkResponse, n: NetworkSummary, count: Option<u64>) -> bool {
    &&& r.name@ == text_or(n.name, Seq::empty())
    &&& r.id@ == text_or(n.id, r.name@)
    &&& opt_view(r.driver) == opt_view(n.driver)
    &&& opt_view(r.scope) == opt_view(n.scope)
    &&& match n.ipam_configs {
        Some(c) => if c@.len() > 0 {
            opt_view(r.subnet) == opt_view(c@[0].0) && opt_view(r.gateway) == opt_view(c@[0].1)
        } else {
            r.subnet is None && r.gateway is None
        },
        None => r.subnet is None && r.gateway is None,
    }
    &&& r.labels@ == match n.labels { Some(l) => l@, None => Map::empty() }
    &&& r.container_count == count
    &&& r.system == system_network(r.name@)
}

/// The answer for a listed network with its container count.
pub fn network_response(network: NetworkSummary, container_count: Option<u64>) -> (r: NetworkResponse)
    ensures
        shows_network(r, network, container_count),
{
    let name = match &network.name {
        Some(n) => n.clone(),
        None => String::new(),
    };
    let system = is_system_network(name.as_str());
    let (subnet, gateway) = match &network.ipam_configs {
        Some(configs) => if configs.len() > 0 {
            (crate::text::clone_opt(&configs[0].0), crate::text::clone_opt(&configs[0].1))
        } else {
            (None, None)
        },
        None => (None, None),
    };
    let id = match &network.id {
        Some(i) => i.clone(),
        None => name.clone(),
    };
    let labels = match network.labels {
        Some(l) => l,
        None => HashMap::new(),
    };
    NetworkResponse {
        id,
        name,
        driver: network.driver,
        scope: network.scope,
        subnet,
        gateway,
        labels,
        container_count,
        system,
    }
}

/// The container count of a network: counted under its id, else under its name.
pub open spec fn count_of_network(
    counts: Seq<(Seq<char>, u64, u64)>,
    id: Option<Seq<char>>,
    name: Option<Seq<char>>,
) -> Option<u64> {
    let by_id = match id {
        Some(i) => match lookup(counts, i) {
            Some(c) => Some(c.0),
            None => None,
        },
        None => None,
    };
    if by_id is Some {
        by_id
    } else {
        match name {
            Some(n) => match lookup(counts, n) {
                Some(c) => Some(c.0),
                None => None,
            },
            None => None,
        }
    }
}

/// The container count of a network, when the counts are known.
pub fn network_count(counts: Option<&TaggedMap<u64>>, id: &Option<String>, name: &Option<String>) -> (r: Option<u64>)
    requires
        counts matches Some(c) ==> c.wf(),
    ensures
        r == match counts {
            Some(c) => count_of_network(c.view(), opt_view(*id), opt_view(*name)),
            None => None,
        },
{
    let counts = match counts {
        Some(c) => c,
        None => {
            return None;
        },
    };
    let by_id = match id {
        Some(i) => match counts.get(i.as_str()) {
            Some(c) => Some(*c),
            None => None,
        },
        None => None,
    };
    if by_id.is_some() {
        return by_id;
    }
    match name {
        Some(n) => match counts.get(n.as_str()) {
            Some(c) => Some(*c),
            None => None,
        },
        None => None,
    }
}

/// A listed network that the target names, by id or name, and that is a
/// system network.
pub open spec fn names_system_network(n: NetworkSummary, target: Seq<char>) -> bool {
    (opt_view(n.id) == Some(target) || opt_view(n.name) == Some(target)) && match n.name {
        Some(x) => system_network(x@),
        None => false,
    }
}

/// Refuses to remove a system network: when a listed network named by the
/// target (by id or name) is a system network, the removal is a conflict.
pub fn check_network_removable(networks: &Vec<NetworkSummary>, target: &str) -> (r: Result<(), ApiError>)
    ensures
        (exists|i: int| 0 <= i < networks@.len() && names_system_network(#[trigger] networks@[i], target@)) ==> (r matches Err(e)
            && e.is(STATUS_CONFLICT, "系统网络不可删除"@)),
        !(exists|i: int| 0 <= i < networks@.len() && names_system_network(#[trigger] networks@[i], target@)) ==> r is Ok,
{
    let mut i: usize = 0;
    while i < networks.len()
        invariant
            i <= networks@.len(),
            forall|k: int| 0 <= k < i ==> !names_system_network(#[trigger] networks@[k], target@),
        decreases networks.len() - i,
    {
        let n = &networks[i];
        let named = match &n.id {
            Some(x) => same_text(x.as_str(), target),
            None => false,
        } || match &n.name {
            Some(x) => same_text(x.as_str(), target),
            None => false,
        };
        let system = match &n.name {
            Some(x) => is_system_network(x.as_str()),
            None => false,
        };
        if named && system {
            assert(names_system_network(networks@[i as int], target@));
            return Err(ApiError::conflict("系统网络不可删除".to_owned()));
        }
        i += 1;
    }
    Ok(())
}

/// The settings of a volume to create, from a validated request.
pub fn volume_config(name: String, driver: Option<String>, options: Option<HashMap<String, String>>) -> (c: VolumeConfig)
    ensures
        c.name matches Some(n) && n@ == name@,
        opt_view(c.driver) == opt_view(driver),
        c.driver_opts == options,
{
    VolumeConfig { name: Some(name), driver, driver_opts: options }
}

/// The settings of a network to create, from a validated request.
pub fn network_config(name: String, driver: Option<String>, internal: Option<bool>) -> (c: NetworkConfig)
    ensures
        c.name@ == name@,
        opt_view(c.driver) == opt_view(driver),
        c.internal == internal,
{
    NetworkConfig { name, driver, internal }
}

} // verus!
