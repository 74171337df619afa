//! Human-readable descriptions of objects, as `kubectl describe` prints
//! them: labelled fields padded into columns, nested parts indented.

use vstd::prelude::*;
use std::fmt::Write;
use super::node::{Capacity, Node, NodeAddresses, NodeInfo};
use super::pod::{
    Container, ContainerPair, ContainerState, ContainerStatus, Pod, PodConditionType, PodConditions, PodPhase,
    ResourceRequirements, Volume, VolumeConfig, VolumeMount, phase_name,
};
use super::pod;
use super::replica_set::ReplicaSet;
use super::labels_text;
use crate::net::ipv4_text;
use crate::text::{
    decimal, join, pad_right, push_char, push_decimal, push_padded, push_signed_decimal, push_str, signed_decimal,
    split,
};

verus! {

/// A line of text indented by four spaces, unless it is empty.
pub open spec fn indent_line(l: Seq<char>) -> Seq<char> {
    if l.len() == 0 {
        l
    } else {
        "    "@ + l
    }
}

/// The text with each non-empty line indented by four spaces.
pub open spec fn indent(s: Seq<char>) -> Seq<char> {
    join(split(s, '\n').map_values(|l: Seq<char>| indent_line(l)), seq!['\n'])
}

/// Writes the text through `indenter::indented` with its default format,
/// which puts four spaces before each non-empty line.
#[verifier::external_body]
fn indented_text(s: &str) -> (r: String)
    ensures
        r@ == indent(s@),
{
    let mut out = String::new();
    let _ = write!(indenter::indented(&mut out), "{}", s);
    out
}

/// Appends the text indented (see [`indent`]).
fn push_indented(out: &mut String, s: &str)
    ensures
        final(out)@ == old(out)@ + indent(s@),
{
    let t = indented_text(s);
    push_str(out, t.as_str());
}

/// A field: the label padded to `width`, a space, the value, a newline.
pub open spec fn field_line(label: Seq<char>, value: Seq<char>, width: nat) -> Seq<char> {
    pad_right(label, width) + seq![' '] + value + seq!['\n']
}

/// Appends a field (see [`field_line`]).
fn push_field(out: &mut String, label: &str, value: &str, width: usize)
    ensures
        final(out)@ == old(out)@ + field_line(label@, value@, width as nat),
{
    push_padded(out, label, width);
    push_char(out, ' ');
    push_str(out, value);
    push_char(out, '\n');
    assert(final(out)@ =~= old(out)@ + field_line(label@, value@, width as nat));
}

/// `true` or `false`.
pub open spec fn bool_text(b: bool) -> Seq<char> {
    if b {
        "true"@
    } else {
        "false"@
    }
}

/// The amounts of a resource: CPU, then memory.
pub open spec fn resource_text(r: pod::Resource) -> Seq<char> {
    field_line("CPU:"@, signed_decimal(r.cpu as int), 8) + field_line("Memory:"@, signed_decimal(r.memory as int), 8)
}

/// The text of an integer.
fn signed_text(n: i64) -> (s: String)
    ensures
        s@ == signed_decimal(n as int),
{
    let mut s = String::new();
    push_signed_decimal(&mut s, n);
    assert(s@ =~= signed_decimal(n as int));
    s
}

/// The text of a natural number.
fn unsigned_text(n: u64) -> (s: String)
    ensures
        s@ == decimal(n as nat),
{
    let mut s = String::new();
    push_decimal(&mut s, n);
    assert(s@ =~= decimal(n as nat));
    s
}

impl pod::Resource {
    /// The amounts (see [`resource_text`]).
    pub fn describe(&self) -> (s: String)
        ensures
            s@ == resource_text(*self),
    {
        let mut s = String::new();
        let cpu = signed_text(self.cpu);
        push_field(&mut s, "CPU:", cpu.as_str(), 8);
        let memory = signed_text(self.memory);
        push_field(&mut s, "Memory:", memory.as_str(), 8);
        assert(s@ =~= resource_text(*self));
        s
    }
}

/// The requests, then the limits, of a container.
pub open spec fn requirements_text(r: ResourceRequirements) -> Seq<char> {
    "  Requests:\n"@ + indent(resource_text(r.requests)) + "  Limits:\n"@ + indent(resource_text(r.limits))
}

impl ResourceRequirements {
    /// The requests and limits (see [`requirements_text`]).
    pub fn describe(&self) -> (s: String)
        ensures
            s@ == requirements_text(*self),
    {
        let mut s = crate::text::to_owned_string("  Requests:\n");
        let requests = self.requests.describe();
        push_indented(&mut s, requests.as_str());
        push_str(&mut s, "  Limits:\n");
        let limits = self.limits.describe();
        push_indented(&mut s, limits.as_str());
        assert(s@ =~= requirements_text(*self));
        s
    }
}

/// `<mount path> from <volume>`.
pub open spec fn mount_text(m: VolumeMount) -> Seq<char> {
    m.mount_path@ + " from "@ + m.name@
}

impl VolumeMount {
    /// Where the volume is mounted (see [`mount_text`]).
    pub fn to_string(&self) -> (s: String)
        ensures
            s@ == mount_text(*self),
    {
        let mut s = self.mount_path.clone();
        push_str(&mut s, " from ");
        push_str(&mut s, self.name.as_str());
        assert(s@ =~= mount_text(*self));
        s
    }
}

/// The name of the kind of a volume.
pub open spec fn volume_config_name(c: VolumeConfig) -> Seq<char> {
    match c {
        VolumeConfig::HostPath(_) => "HostPath"@,
        VolumeConfig::EmptyDir => "EmptyDir"@,
    }
}

/// A volume: its name padded to 16, a colon, its kind, a newline.
pub open spec fn volume_text(v: Volume) -> Seq<char> {
    pad_right(v.name@, 16) + ": "@ + volume_config_name(v.config) + "\n"@
}

impl Volume {
    /// The volume (see [`volume_text`]).
    pub fn describe(&self) -> (s: String)
        ensures
            s@ == volume_text(*self),
    {
        let mut s = String::new();
        push_padded(&mut s, self.name.as_str(), 16);
        push_str(&mut s, ": ");
        match self.config {
            VolumeConfig::HostPath(_) => push_str(&mut s, "HostPath"),
            VolumeConfig::EmptyDir => push_str(&mut s, "EmptyDir"),
        }
        push_str(&mut s, "\n");
        assert(s@ =~= volume_text(*self));
        s
    }
}

/// The name of a container state.
pub open spec fn state_name(s: ContainerState) -> Seq<char> {
    match s {
        ContainerState::Running => "Running"@,
        ContainerState::Terminated { .. } => "Terminated"@,
        ContainerState::Waiting => "Waiting"@,
    }
}

/// The name of a container state.
fn state_text(s: ContainerState) -> (r: String)
    ensures
        r@ == state_name(s),
{
    match s {
        ContainerState::Running => crate::text::to_owned_string("Running"),
        ContainerState::Terminated { .. } => crate::text::to_owned_string("Terminated"),
        ContainerState::Waiting => crate::text::to_owned_string("Waiting"),
    }
}

/// The ports of a container, joined with `,`.
pub open spec fn ports_text(c: Container) -> Seq<char> {
    join(c.ports@.map_values(|p: pod::ContainerPort| decimal(p.container_port as nat)), ","@)
}

/// The mounts of a container, each indented on a line of its own.
pub open spec fn mounts_text(ms: Seq<VolumeMount>) -> Seq<char>
    decreases ms.len(),
{
    if ms.len() == 0 {
        Seq::empty()
    } else {
        mounts_text(ms.drop_last()) + indent(mount_text(ms.last()) + "\n"@)
    }
}

/// A container with its status: image, ports, the status' fields, mounts
/// and resources.
pub open spec fn pair_text(c: Container, st: Option<ContainerStatus>) -> Seq<char> {
    field_line("Image:"@, c.image@, 16) + field_line("Port:"@, ports_text(c), 16) + match st {
        Some(s) => field_line("Container ID:"@, s.container_id@, 16) + field_line("State:"@, state_name(s.state), 16)
            + field_line("Restart Count:"@, decimal(s.restart_count as nat), 16),
        None => Seq::empty(),
    } + if c.volume_mounts@.len() == 0 {
        Seq::empty()
    } else {
        "Mounts\n"@ + mounts_text(c.volume_mounts@)
    } + "Resources:\n"@ + requirements_text(c.resources)
}

/// The ports of a container, joined with `,`.
fn ports_string(c: &Container) -> (s: String)
    ensures
        s@ == ports_text(*c),
{
    let ghost parts = c.ports@.map_values(|p: pod::ContainerPort| decimal(p.container_port as nat));
    let mut s = String::new();
    let mut i: usize = 0;
    assert(parts.take(0) =~= Seq::<Seq<char>>::empty());
    while i < c.ports.len()
        invariant
            i <= c.ports@.len(),
            parts == c.ports@.map_values(|p: pod::ContainerPort| decimal(p.container_port as nat)),
            s@ == join(parts.take(i as int), ","@),
        decreases c.ports.len() - i,
    {
        if i > 0 {
            push_str(&mut s, ",");
        }
        push_decimal(&mut s, c.ports[i].container_port as u64);
        proof {
            let t = parts.take(i + 1);
            assert(t.drop_last() =~= parts.take(i as int));
            assert(t.last() == parts[i as int]);
            if i > 0 {
                assert(s@ =~= join(t.drop_last(), ","@) + ","@ + t.last());
            } else {
                assert(t.len() == 1);
                assert(s@ =~= t[0]);
            }
        }
        i = i + 1;
    }
    assert(parts.take(i as int) =~= parts);
    s
}

impl<'a> ContainerPair<'a> {
    /// The container with its status (see [`pair_text`]).
    pub fn describe(&self) -> (s: String)
        ensures
            s@ == pair_text(
                *self.0,
                match self.1 {
                    Some(st) => Some(*st),
                    None => None,
                },
            ),
    {
        let c = self.0;
        let mut s = String::new();
        push_field(&mut s, "Image:", c.image.as_str(), 16);
        let ports = ports_string(c);
        push_field(&mut s, "Port:", ports.as_str(), 16);
        let ghost head = s@;
        if let Some(st) = self.1 {
            push_field(&mut s, "Container ID:", st.container_id.as_str(), 16);
            let state = state_text(st.state);
            push_field(&mut s, "State:", state.as_str(), 16);
            let count = unsigned_text(st.restart_count as u64);
            push_field(&mut s, "Restart Count:", count.as_str(), 16);
        }
        let ghost mid = s@;
        if c.volume_mounts.len() > 0 {
            push_str(&mut s, "Mounts\n");
            let ghost start = s@;
            let mut i: usize = 0;
            assert(c.volume_mounts@.take(0) =~= Seq::<VolumeMount>::empty());
            assert(start + mounts_text(c.volume_mounts@.take(0)) =~= start);
            while i < c.volume_mounts.len()
                invariant
                    i <= c.volume_mounts@.len(),
                    s@ == start + mounts_text(c.volume_mounts@.take(i as int)),
                decreases c.volume_mounts.len() - i,
            {
                assert(c.volume_mounts@.take(i + 1).drop_last() =~= c.volume_mounts@.take(i as int));
                assert(c.volume_mounts@.take(i + 1).last() == c.volume_mounts@[i as int]);
                let mut line = c.volume_mounts[i].to_string();
                push_str(&mut line, "\n");
                push_indented(&mut s, line.as_str());
                assert(s@ =~= start + mounts_text(c.volume_mounts@.take(i + 1)));
                i = i + 1;
            }
            assert(c.volume_mounts@.take(i as int) =~= c.volume_mounts@);
        }
        push_str(&mut s, "Resources:\n");
        let resources = c.resources.describe();
        push_str(&mut s, resources.as_str());
        assert(s@ =~= pair_text(
            *c,
            match self.1 {
                Some(st) => Some(*st),
                None => None,
            },
        ));
        s
    }
}

/// The name of a condition type.
pub open spec fn condition_name(t: PodConditionType) -> Seq<char> {
    match t {
        PodConditionType::ContainersReady => "ContainersReady"@,
        PodConditionType::Initialized => "Initialized"@,
        PodConditionType::PodScheduled => "PodScheduled"@,
        PodConditionType::Ready => "Ready"@,
    }
}

/// The line of a present condition, indented.
pub open spec fn condition_line(c: PodConditions, t: PodConditionType) -> Seq<char> {
    match c.condition_of(t) {
        Some(cond) => indent(pad_right(condition_name(t), 16) + seq![' '] + pad_right(bool_text(cond.status), 8)
            + seq!['\n']),
        None => Seq::empty(),
    }
}

/// The conditions, in the order of their types.
pub open spec fn conditions_text(c: PodConditions) -> Seq<char> {
    indent(pad_right("Type"@, 16) + seq![' '] + pad_right("Status"@, 8) + seq!['\n']) + condition_line(
        c,
        PodConditionType::ContainersReady,
    ) + condition_line(c, PodConditionType::Initialized) + condition_line(c, PodConditionType::PodScheduled)
        + condition_line(c, PodConditionType::Ready)
}

/// Appends the line of a condition, if present.
fn push_condition(out: &mut String, c: &PodConditions, t: PodConditionType)
    ensures
        final(out)@ == old(out)@ + condition_line(*c, t),
{
    match c.get(t) {
        Some(cond) => {
            let mut line = String::new();
            let name = match t {
                PodConditionType::ContainersReady => "ContainersReady",
                PodConditionType::Initialized => "Initialized",
                PodConditionType::PodScheduled => "PodScheduled",
                PodConditionType::Ready => "Ready",
            };
            assert(name@ == condition_name(t));
            let b = if cond.status { "true" } else { "false" };
            assert(b@ == bool_text(cond.status));
            push_padded(&mut line, name, 16);
            push_char(&mut line, ' ');
            push_padded(&mut line, b, 8);
            push_char(&mut line, '\n');
            assert(line@ =~= pad_right(condition_name(t), 16) + seq![' '] + pad_right(bool_text(cond.status), 8)
                + seq!['\n']);
            push_indented(out, line.as_str());
        },
        None => {
            assert(old(out)@ + Seq::<char>::empty() =~= old(out)@);
        },
    }
}

/// The first status of the container named `name`.
pub open spec fn first_status(statuses: Seq<ContainerStatus>, name: Seq<char>) -> Option<ContainerStatus>
    decreases statuses.len(),
{
    if statuses.len() == 0 {
        None
    } else if statuses[0].name@ == name {
        Some(statuses[0])
    } else {
        first_status(statuses.drop_first(), name)
    }
}

/// The status of the container named `name` in a pod with `status`.
pub open spec fn container_status(status: Option<pod::PodStatus>, name: Seq<char>) -> Option<ContainerStatus> {
    match status {
        Some(s) => first_status(s.container_statuses@, name),
        None => None,
    }
}

/// The first status named `name`, found.
fn status_named<'a>(statuses: &'a Vec<ContainerStatus>, name: &String) -> (r: Option<&'a ContainerStatus>)
    ensures
        match r {
            Some(s) => first_status(statuses@, name@) == Some(*s),
            None => first_status(statuses@, name@) is None,
        },
{
    let mut j: usize = 0;
    assert(statuses@.skip(0) =~= statuses@);
    while j < statuses.len()
        invariant
            j <= statuses@.len(),
            first_status(statuses@.skip(j as int), name@) == first_status(statuses@, name@),
        decreases statuses.len() - j,
    {
        assert(statuses@.skip(j as int)[0] == statuses@[j as int]);
        assert(statuses@.skip(j as int).drop_first() =~= statuses@.skip(j + 1));
        if statuses[j].name == *name {
            return Some(&statuses[j]);
        }
        j = j + 1;
    }
    assert(statuses@.skip(j as int) =~= Seq::<ContainerStatus>::empty());
    None
}

/// The containers of a pod, each with its name and its description
/// indented.
pub open spec fn containers_text(cs: Seq<Container>, status: Option<pod::PodStatus>) -> Seq<char>
    decreases cs.len(),
{
    if cs.len() == 0 {
        Seq::empty()
    } else {
        containers_text(cs.drop_last(), status) + "  "@ + cs.last().name@ + ":\n"@ + indent(
            pair_text(cs.last(), container_status(status, cs.last().name@)),
        )
    }
}

/// The volumes of a pod, each indented on a line of its own.
pub open spec fn volumes_text(vs: Seq<Volume>) -> Seq<char>
    decreases vs.len(),
{
    if vs.len() == 0 {
        Seq::empty()
    } else {
        volumes_text(vs.drop_last()) + indent(volume_text(vs.last()) + "\n"@)
    }
}

/// A value, or `<none>`.
pub open spec fn or_none(v: Option<Seq<char>>) -> Seq<char> {
    match v {
        Some(s) => s,
        None => "<none>"@,
    }
}

/// The fields of a pod with status `st`: its node, start time, labels,
/// phase and address.
pub open spec fn status_fields_text(p: Pod, st: pod::PodStatus, start_time: Seq<char>) -> Seq<char> {
    field_line(
        "Node:"@,
        or_none(
            match p.spec.node_name {
                Some(n) => Some(n@),
                None => None,
            },
        ) + "/"@ + or_none(
            match st.host_ip {
                Some(h) => Some(h@),
                None => None,
            },
        ),
        16,
    ) + field_line("Start Time:"@, start_time, 16) + field_line("Labels:"@, labels_text(p.metadata.labels.pairs()), 16)
        + field_line("Phase:"@, phase_name(st.phase), 16) + field_line(
        "IP:"@,
        or_none(
            match st.pod_ip {
                Some(ip) => Some(ipv4_text(ip)),
                None => None,
            },
        ),
        16,
    )
}

/// The volumes section: nothing without volumes.
pub open spec fn volumes_section(vs: Seq<Volume>) -> Seq<char> {
    if vs.len() == 0 {
        Seq::empty()
    } else {
        "Volumes:\n"@ + volumes_text(vs)
    }
}

/// The description of a pod that started at the time written
/// `start_time`: its name; and, once it has a status, its node, start
/// time, labels, phase, address, containers, conditions and volumes.
pub open spec fn pod_text(p: Pod, start_time: Seq<char>) -> Seq<char> {
    field_line("Name:"@, p.metadata.name@, 16) + match p.status {
        None => Seq::empty(),
        Some(st) => status_fields_text(p, st, start_time) + "Containers:\n"@ + containers_text(
            p.spec.containers@,
            p.status,
        ) + "Conditions:\n"@ + conditions_text(st.conditions) + volumes_section(p.spec.volumes@),
    }
}

/// Appends a value, or `<none>`.
fn push_or_none(out: &mut String, v: &Option<String>)
    ensures
        final(out)@ == old(out)@ + or_none(
            match *v {
                Some(s) => Some(s@),
                None => None,
            },
        ),
{
    match v {
        Some(s) => push_str(out, s.as_str()),
        None => push_str(out, "<none>"),
    }
}

/// Appends the fields of a pod with its status (see [`status_fields_text`]).
fn push_status_fields(out: &mut String, p: &Pod, st: &pod::PodStatus, start_time: &str)
    ensures
        final(out)@ == old(out)@ + status_fields_text(*p, *st, start_time@),
{
    let mut node = String::new();
    push_or_none(&mut node, &p.spec.node_name);
    push_str(&mut node, "/");
    push_or_none(&mut node, &st.host_ip);
    push_field(out, "Node:", node.as_str(), 16);
    push_field(out, "Start Time:", start_time, 16);
    let labels = p.metadata.labels.to_string();
    push_field(out, "Labels:", labels.as_str(), 16);
    let phase = st.phase.to_string();
    push_field(out, "Phase:", phase.as_str(), 16);
    let ip = match &st.pod_ip {
        Some(ip) => ip.to_string(),
        None => crate::text::to_owned_string("<none>"),
    };
    push_field(out, "IP:", ip.as_str(), 16);
    assert(final(out)@ =~= old(out)@ + status_fields_text(*p, *st, start_time@));
}

/// Appends the containers of a pod (see [`containers_text`]).
fn push_containers(out: &mut String, p: &Pod, st: &pod::PodStatus)
    requires
        p.status == Some(*st),
    ensures
        final(out)@ == old(out)@ + containers_text(p.spec.containers@, p.status),
{
    let ghost start = out@;
    let cs = &p.spec.containers;
    let mut i: usize = 0;
    assert(cs@.take(0) =~= Seq::<Container>::empty());
    assert(start + containers_text(cs@.take(0), p.status) =~= start);
    while i < cs.len()
        invariant
            i <= cs@.len(),
            *cs == p.spec.containers,
            p.status == Some(*st),
            start == old(out)@,
            out@ == start + containers_text(cs@.take(i as int), p.status),
        decreases cs.len() - i,
    {
        assert(cs@.take(i + 1).drop_last() =~= cs@.take(i as int));
        assert(cs@.take(i + 1).last() == cs@[i as int]);
        let c = &cs[i];
        push_str(out, "  ");
        push_str(out, c.name.as_str());
        push_str(out, ":\n");
        let found = status_named(&st.container_statuses, &c.name);
        let text = ContainerPair(c, found).describe();
        push_indented(out, text.as_str());
        assert(out@ =~= start + containers_text(cs@.take(i + 1), p.status));
        i = i + 1;
    }
    assert(cs@.take(i as int) =~= cs@);
}

/// Appends the conditions (see [`conditions_text`]).
fn push_conditions(out: &mut String, c: &PodConditions)
    ensures
        final(out)@ == old(out)@ + conditions_text(*c),
{
    let mut header = String::new();
    push_padded(&mut header, "Type", 16);
    push_char(&mut header, ' ');
    push_padded(&mut header, "Status", 8);
    push_char(&mut header, '\n');
    assert(header@ =~= pad_right("Type"@, 16) + seq![' '] + pad_right("Status"@, 8) + seq!['\n']);
    push_indented(out, header.as_str());
    push_condition(out, c, PodConditionType::ContainersReady);
    push_condition(out, c, PodConditionType::Initialized);
    push_condition(out, c, PodConditionType::PodScheduled);
    push_condition(out, c, PodConditionType::Ready);
    assert(final(out)@ =~= old(out)@ + conditions_text(*c));
}

/// Appends the volumes section (see [`volumes_section`]).
fn push_volumes(out: &mut String, vs: &Vec<Volume>)
    ensures
        final(out)@ == old(out)@ + volumes_section(vs@),
{
    if vs.len() == 0 {
        assert(old(out)@ + Seq::<char>::empty() =~= old(out)@);
        return;
    }
    push_str(out, "Volumes:\n");
    let ghost start = out@;
    let mut k: usize = 0;
    assert(vs@.take(0) =~= Seq::<Volume>::empty());
    assert(start + volumes_text(vs@.take(0)) =~= start);
    while k < vs.len()
        invariant
            k <= vs@.len(),
            out@ == start + volumes_text(vs@.take(k as int)),
        decreases vs.len() - k,
    {
        assert(vs@.take(k + 1).drop_last() =~= vs@.take(k as int));
        assert(vs@.take(k + 1).last() == vs@[k as int]);
        let mut line = vs[k].describe();
        push_str(&mut line, "\n");
        push_indented(out, line.as_str());
        assert(out@ =~= start + volumes_text(vs@.take(k + 1)));
        k = k + 1;
    }
    assert(vs@.take(k as int) =~= vs@);
    assert(final(out)@ =~= old(out)@ + volumes_section(vs@));
}

impl Pod {
    /// The description of the pod (see [`pod_text`]), with its start time
    /// written as `start_time`.
    pub fn describe(&self, start_time: &str) -> (s: String)
        ensures
            s@ == pod_text(*self, start_time@),
    {
        let mut s = String::new();
        push_field(&mut s, "Name:", self.metadata.name.as_str(), 16);
        let st = match &self.status {
            None => {
                assert(s@ =~= pod_text(*self, start_time@));
                return s;
            },
            Some(st) => st,
        };
        push_status_fields(&mut s, self, st, start_time);
        push_str(&mut s, "Containers:\n");
        push_containers(&mut s, self, st);
        push_str(&mut s, "Conditions:\n");
        push_conditions(&mut s, &st.conditions);
        push_volumes(&mut s, &self.spec.volumes);
        assert(s@ =~= pod_text(*self, start_time@));
        s
    }
}

/// The description of a replica set: name, selector, labels and, with a
/// status, its replica counts.
pub open spec fn replica_set_text(rs: ReplicaSet) -> Seq<char> {
    field_line("Name:"@, rs.metadata.name@, 16) + field_line("Selector:"@, labels_text(rs.spec.selector.pairs()), 16)
        + field_line("Labels:"@, labels_text(rs.metadata.labels.pairs()), 16) + match rs.status {
        None => Seq::empty(),
        Some(st) => pad_right("Replicas:"@, 16) + seq![' '] + decimal(st.ready_replicas as nat) + " ready / "@
            + decimal(st.replicas as nat) + " current / "@ + decimal(rs.spec.replicas as nat) + " desired\n"@,
    }
}

impl ReplicaSet {
    /// The description of the replica set (see [`replica_set_text`]).
    pub fn describe(&self) -> (s: String)
        ensures
            s@ == replica_set_text(*self),
    {
        let mut s = String::new();
        push_field(&mut s, "Name:", self.metadata.name.as_str(), 16);
        let selector = self.spec.selector.to_string();
        push_field(&mut s, "Selector:", selector.as_str(), 16);
        let labels = self.metadata.labels.to_string();
        push_field(&mut s, "Labels:", labels.as_str(), 16);
        if let Some(st) = &self.status {
            push_padded(&mut s, "Replicas:", 16);
            push_char(&mut s, ' ');
            push_decimal(&mut s, st.ready_replicas as u64);
            push_str(&mut s, " ready / ");
            push_decimal(&mut s, st.replicas as u64);
            push_str(&mut s, " current / ");
            push_decimal(&mut s, self.spec.replicas as u64);
            push_str(&mut s, " desired\n");
        }
        assert(s@ =~= replica_set_text(*self));
        s
    }
}

/// The system information of a node.
pub open spec fn node_info_text(i: NodeInfo) -> Seq<char> {
    field_line("Architecture:"@, i.architecture@, 20) + field_line("Machine ID:"@, i.machine_id@, 20) + field_line(
        "Operating System:"@,
        i.operating_system@,
        20,
    ) + field_line("OS Image:"@, i.os_image@, 20)
}

impl NodeInfo {
    /// The system information (see [`node_info_text`]).
    pub fn describe(&self) -> (s: String)
        ensures
            s@ == node_info_text(*self),
    {
        let mut s = String::new();
        push_field(&mut s, "Architecture:", self.architecture.as_str(), 20);
        push_field(&mut s, "Machine ID:", self.machine_id.as_str(), 20);
        push_field(&mut s, "Operating System:", self.operating_system.as_str(), 20);
        push_field(&mut s, "OS Image:", self.os_image.as_str(), 20);
        assert(s@ =~= node_info_text(*self));
        s
    }
}

/// The capacity of a node: cores, and memory in kilobytes.
pub open spec fn capacity_text(c: Capacity) -> Seq<char> {
    "CPU: "@ + decimal(c.cpu as nat) + "\n"@ + "Memory: "@ + decimal(c.memory as nat) + "KB\n"@
}

impl Capacity {
    /// The capacity (see [`capacity_text`]).
    pub fn describe(&self) -> (s: String)
        ensures
            s@ == capacity_text(*self),
    {
        let mut s = crate::text::to_owned_string("CPU: ");
        push_decimal(&mut s, self.cpu as u64);
        push_str(&mut s, "\n");
        push_str(&mut s, "Memory: ");
        push_decimal(&mut s, self.memory);
        push_str(&mut s, "KB\n");
        assert(s@ =~= capacity_text(*self));
        s
    }
}

/// The line of an address, indented, when present.
pub open spec fn address_line(name: Seq<char>, a: Option<String>) -> Seq<char> {
    match a {
        Some(s) => indent(name + ": "@ + s@ + "\n"@),
        None => Seq::empty(),
    }
}

/// The addresses of a node, by type.
pub open spec fn addresses_text(a: NodeAddresses) -> Seq<char> {
    address_line("Hostname"@, a.hostname) + address_line("ExternalIP"@, a.external_ip) + address_line(
        "InternalIP"@,
        a.internal_ip,
    )
}

/// Appends the line of an address, when present.
fn push_address(out: &mut String, name: &str, a: &Option<String>)
    ensures
        final(out)@ == old(out)@ + address_line(name@, *a),
{
    match a {
        Some(addr) => {
            let mut line = crate::text::to_owned_string(name);
            push_str(&mut line, ": ");
            push_str(&mut line, addr.as_str());
            push_str(&mut line, "\n");
            push_indented(out, line.as_str());
        },
        None => {
            assert(old(out)@ + Seq::<char>::empty() =~= old(out)@);
        },
    }
}

/// The description of a node whose last heartbeat is written `heartbeat`:
/// name, labels, heartbeat, addresses, capacity, allocatable resources and
/// system information.
pub open spec fn node_text(n: Node, heartbeat: Seq<char>) -> Seq<char> {
    field_line("Name:"@, n.metadata.name@, 16) + field_line("Labels:"@, labels_text(n.metadata.labels.pairs()), 16)
        + field_line("Last Heartbeat:"@, heartbeat, 16) + "Addresses:\n"@ + addresses_text(n.status.addresses)
        + "Capacity:\n"@ + indent(capacity_text(n.status.capacity)) + "Allocatable:\n"@ + indent(
        capacity_text(n.status.allocatable),
    ) + "System Info:\n"@ + indent(node_info_text(n.status.node_info))
}

impl Node {
    /// The description of the node (see [`node_text`]).
    pub fn describe(&self, heartbeat: &str) -> (s: String)
        ensures
            s@ == node_text(*self, heartbeat@),
    {
        let mut s = String::new();
        push_field(&mut s, "Name:", self.metadata.name.as_str(), 16);
        let labels = self.metadata.labels.to_string();
        push_field(&mut s, "Labels:", labels.as_str(), 16);
        push_field(&mut s, "Last Heartbeat:", heartbeat, 16);
        push_str(&mut s, "Addresses:\n");
        push_address(&mut s, "Hostname", &self.status.addresses.hostname);
        push_address(&mut s, "ExternalIP", &self.status.addresses.external_ip);
        push_address(&mut s, "InternalIP", &self.status.addresses.internal_ip);
        push_str(&mut s, "Capacity:\n");
        let capacity = self.status.capacity.describe();
        push_indented(&mut s, capacity.as_str());
        push_str(&mut s, "Allocatable:\n");
        let allocatable = self.status.allocatable.describe();
        push_indented(&mut s, allocatable.as_str());
        push_str(&mut s, "System Info:\n");
        let info = self.status.node_info.describe();
        push_indented(&mut s, info.as_str());
        assert(s@ =~= node_text(*self, heartbeat@));
        s
    }
}

} // verus!
