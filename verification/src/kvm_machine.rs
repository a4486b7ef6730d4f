//! Archiving the disks of a KVM virtual machine.

use vstd::prelude::*;
use vstd::string::StringExecFns;
use crate::app_config::{AppConfig, KvmMachineConfig, lookup_opt, spec_lookup_opt};
use crate::archive_helper::{commands, cmd_remove_file, remove_file_command};
use crate::errors::{CustomError, CustomErrorKind, Result, fails_with_message};
use crate::extensions::{
    PathExtensions, path_push, path_set_extension, spec_path_file_name, spec_path_pop,
    spec_path_push, spec_path_set_extension,
};
use crate::text::string_views;

use crate::script::{Script, Step, StepView, run_script, script_outcome, shell_steps, shells, step_views};

verus! {

/// A node of an XML document, in document order: its identity, its parent's
/// identity, whether it is an element, its local tag name (empty for other
/// nodes) and its attributes (local name and value).
pub struct XmlNode {
    pub id: usize,
    pub parent: Option<usize>,
    pub is_element: bool,
    pub tag_name: String,
    pub attributes: Vec<(String, String)>,
}

/// The value of an [`XmlNode`].
pub struct XmlNodeView {
    pub id: usize,
    pub parent: Option<usize>,
    pub is_element: bool,
    pub tag_name: Seq<char>,
    pub attributes: Seq<(Seq<char>, Seq<char>)>,
}

/// The views of attribute pairs.
pub open spec fn pair_views(v: Seq<(String, String)>) -> Seq<(Seq<char>, Seq<char>)> {
    v.map_values(|p: (String, String)| (p.0@, p.1@))
}

impl View for XmlNode {
    type V = XmlNodeView;

    open spec fn view(&self) -> XmlNodeView {
        XmlNodeView {
            id: self.id,
            parent: self.parent,
            is_element: self.is_element,
            tag_name: self.tag_name@,
            attributes: pair_views(self.attributes@),
        }
    }
}

/// The views of the nodes of a document.
pub open spec fn node_views(v: Seq<XmlNode>) -> Seq<XmlNodeView> {
    v.map_values(|n: XmlNode| n@)
}

/// The nodes of the document `text` (all of its descendants, in document
/// order, as `roxmltree` parses it), or `None` when it is not well-formed.
pub uninterp spec fn spec_parse_xml(text: Seq<char>) -> Option<Seq<XmlNodeView>>;

/// `roxmltree::Document::parse`, then the document's nodes from
/// `descendants()`, each taken one for one into an [`XmlNode`].
#[verifier::external_body]
fn parse_xml(text: &str) -> (res: core::result::Result<Vec<XmlNode>, roxmltree::Error>)
    ensures
        match res {
            Ok(v) => spec_parse_xml(text@) == Some(node_views(v@)),
            Err(_) => spec_parse_xml(text@) is None,
        },
{
    let doc = roxmltree::Document::parse(text)?;
    Ok(doc.descendants().map(|n| XmlNode {
        id: n.id().get_usize(),
        parent: n.parent().map(|p| p.id().get_usize()),
        is_element: n.is_element(),
        tag_name: n.tag_name().name().to_string(),
        attributes: n.attributes().map(|a| (a.name().to_string(), a.value().to_string())).collect(),
    }).collect())
}

/// The first index below `len` where `f` holds.
pub open spec fn find_first(len: int, f: spec_fn(int) -> bool) -> Option<int>
    decreases len,
{
    if len <= 0 {
        None
    } else {
        match find_first(len - 1, f) {
            Some(k) => Some(k),
            None => if f(len - 1) { Some(len - 1) } else { None },
        }
    }
}

/// Every index below `len` where `f` holds, in order.
pub open spec fn all_where(len: int, f: spec_fn(int) -> bool) -> Seq<int>
    decreases len,
{
    if len <= 0 {
        Seq::empty()
    } else if f(len - 1) {
        all_where(len - 1, f).push(len - 1)
    } else {
        all_where(len - 1, f)
    }
}

/// Node `k` is an element named `tag`.
pub open spec fn is_tag(nodes: Seq<XmlNodeView>, k: int, tag: Seq<char>) -> bool {
    nodes[k].is_element && nodes[k].tag_name == tag
}

/// Node `k` is an element named `tag` whose parent is `parent`.
pub open spec fn is_child_tag(nodes: Seq<XmlNodeView>, k: int, parent: usize, tag: Seq<char>) -> bool {
    nodes[k].parent == Some(parent) && is_tag(nodes, k, tag)
}

/// The first child of the node with identity `parent` named `tag`.
pub open spec fn find_child(nodes: Seq<XmlNodeView>, parent: usize, tag: Seq<char>) -> Option<int> {
    find_first(nodes.len() as int, |k: int| is_child_tag(nodes, k, parent, tag))
}

/// The value of the first attribute named `name`.
pub open spec fn find_attribute(attrs: Seq<(Seq<char>, Seq<char>)>, name: Seq<char>) -> Option<Seq<char>>
    decreases attrs.len(),
{
    if attrs.len() == 0 {
        None
    } else if attrs[0].0 == name {
        Some(attrs[0].1)
    } else {
        find_attribute(attrs.drop_first(), name)
    }
}

/// A disk of a virtual machine.
pub struct DiskImage {
    pub device_name: String,
    pub file_path: String,
    pub disk_format: String,
    pub disk_device: String,
}

/// The value of a [`DiskImage`].
pub struct DiskImageView {
    pub device_name: Seq<char>,
    pub file_path: Seq<char>,
    pub disk_format: Seq<char>,
    pub disk_device: Seq<char>,
}

impl View for DiskImage {
    type V = DiskImageView;

    open spec fn view(&self) -> DiskImageView {
        DiskImageView {
            device_name: self.device_name@,
            file_path: self.file_path@,
            disk_format: self.disk_format@,
            disk_device: self.disk_device@,
        }
    }
}

/// The views of a list of disks.
pub open spec fn disk_views(v: Seq<DiskImage>) -> Seq<DiskImageView> {
    v.map_values(|d: DiskImage| d@)
}

/// The disk that the `disk` element at index `k` describes, or the message
/// of what is missing: its `device`, its `driver` child and that child's
/// `type`, its `target` child and `dev`, its `source` child and `file`.
pub open spec fn spec_disk(nodes: Seq<XmlNodeView>, k: int) -> core::result::Result<DiskImageView, Seq<char>> {
    let disk = nodes[k];
    match find_attribute(disk.attributes, "device"@) {
        None => Err("No `device` attribute found on the `disk` tag."@),
        Some(device) => match find_child(nodes, disk.id, "driver"@) {
            None => Err("No `driver` tag found in the `disk` tag."@),
            Some(dr) => match find_attribute(nodes[dr].attributes, "type"@) {
                None => Err("No `type` attribute found on the `driver` tag."@),
                Some(format) => match find_child(nodes, disk.id, "target"@) {
                    None => Err("No `target` tag found in the `disk` tag."@),
                    Some(tg) => match find_attribute(nodes[tg].attributes, "dev"@) {
                        None => Err("No `dev` attribute found on the `target` tag."@),
                        Some(dev) => match find_child(nodes, disk.id, "source"@) {
                            None => Err("No `source` tag found in the `disk` tag."@),
                            Some(src) => match find_attribute(nodes[src].attributes, "file"@) {
                                None => Err("No `file` attribute found on the `source` tag."@),
                                Some(file) => Ok(DiskImageView {
                                    device_name: dev,
                                    file_path: file,
                                    disk_format: format,
                                    disk_device: device,
                                }),
                            },
                        },
                    },
                },
            },
        },
    }
}

/// The disks of the `disk` elements at `indices`, stopping at the first
/// error.
pub open spec fn spec_disks_at(nodes: Seq<XmlNodeView>, indices: Seq<int>) -> core::result::Result<Seq<DiskImageView>, Seq<char>>
    decreases indices.len(),
{
    if indices.len() == 0 {
        Ok(Seq::empty())
    } else {
        match spec_disks_at(nodes, indices.drop_last()) {
            Err(m) => Err(m),
            Ok(v) => match spec_disk(nodes, indices.last()) {
                Err(m) => Err(m),
                Ok(d) => Ok(v.push(d)),
            },
        }
    }
}

/// The disks of a virtual machine definition: the `disk` children of the
/// first `devices` element, in order.
pub open spec fn spec_get_disks(nodes: Seq<XmlNodeView>) -> core::result::Result<Seq<DiskImageView>, Seq<char>> {
    match find_first(nodes.len() as int, |k: int| is_tag(nodes, k, "devices"@)) {
        None => Err("No `devices` tag found in the xml definition of the vm."@),
        Some(dv) => spec_disks_at(nodes, all_where(nodes.len() as int, |k: int| is_child_tag(nodes, k, nodes[dv].id, "disk"@))),
    }
}

fn str_eq(a: &String, b: &str) -> (res: bool)
    ensures
        res == (a@ == b@),
{
    let b2 = b.to_owned();
    *a == b2
}

fn find_attribute_exec<'a>(attrs: &'a Vec<(String, String)>, name: &str) -> (res: Option<&'a String>)
    ensures
        match find_attribute(pair_views(attrs@), name@) {
            None => res is None,
            Some(v) => res matches Some(r) && r@ == v,
        },
{
    let mut i: usize = 0;
    assert(pair_views(attrs@).skip(0) =~= pair_views(attrs@));
    while i < attrs.len()
        invariant
            i <= attrs.len(),
            find_attribute(pair_views(attrs@), name@) == find_attribute(pair_views(attrs@).skip(i as int), name@),
        decreases attrs.len() - i,
    {
        let ghost rest = pair_views(attrs@).skip(i as int);
        assert(rest[0] == (attrs@[i as int].0@, attrs@[i as int].1@));
        assert(rest.drop_first() =~= pair_views(attrs@).skip(i + 1));
        if str_eq(&attrs[i].0, name) {
            return Some(&attrs[i].1);
        }
        i += 1;
    }
    assert(pair_views(attrs@).skip(i as int) =~= Seq::<(Seq<char>, Seq<char>)>::empty());
    None
}

fn find_child_exec(nodes: &Vec<XmlNode>, parent: usize, tag: &str) -> (res: Option<usize>)
    ensures
        match find_child(node_views(nodes@), parent, tag@) {
            None => res is None,
            Some(k) => res == Some(k as usize),
        },
        res matches Some(k) ==> k < nodes.len(),
        find_child(node_views(nodes@), parent, tag@) matches Some(k) ==> 0 <= k < nodes.len(),
{
    let ghost n = node_views(nodes@);
    let ghost f = |k: int| is_child_tag(n, k, parent, tag@);
    let mut i: usize = 0;
    while i < nodes.len()
        invariant
            i <= nodes.len(),
            n == node_views(nodes@),
            f == (|k: int| is_child_tag(n, k, parent, tag@)),
            find_first(i as int, f) is None,
        decreases nodes.len() - i,
    {
        proof { lemma_find_first_range(i + 1, f); }
        if nodes[i].parent == Some(parent) && nodes[i].is_element && str_eq(&nodes[i].tag_name, tag) {
            assert(f(i as int));
            assert(find_first(i + 1, f) == Some(i as int));
            proof {
                lemma_find_first_stable(i + 1, nodes.len() as int, f);
                lemma_find_first_range(nodes.len() as int, f);
            }
            return Some(i);
        }
        i += 1;
    }
    None
}

proof fn lemma_find_first_range(len: int, f: spec_fn(int) -> bool)
    ensures
        find_first(len, f) matches Some(k) ==> 0 <= k < len && f(k),
        find_first(len, f) is None ==> forall|k: int| 0 <= k < len ==> !#[trigger] f(k),
    decreases len,
{
    if len > 0 {
        lemma_find_first_range(len - 1, f);
    }
}

proof fn lemma_find_first_stable(i: int, len: int, f: spec_fn(int) -> bool)
    requires
        0 <= i <= len,
        find_first(i, f) is Some,
    ensures
        find_first(len, f) == find_first(i, f),
    decreases len - i,
{
    if i < len {
        lemma_find_first_stable(i, len - 1, f);
    }
}

/// The message of a missing part of a disk definition.
fn disk_error(message: &str) -> (res: Result<DiskImage>)
    ensures
        fails_with_message(res, message@),
{
    Err(CustomError::from_message(message))
}

fn get_disk(nodes: &Vec<XmlNode>, k: usize) -> (res: Result<DiskImage>)
    requires
        k < nodes.len(),
    ensures
        match spec_disk(node_views(nodes@), k as int) {
            Err(m) => fails_with_message(res, m),
            Ok(d) => res matches Ok(r) && r@ == d,
        },
{
    let disk = &nodes[k];
    assert(node_views(nodes@)[k as int] == nodes@[k as int]@);
    let device = match find_attribute_exec(&disk.attributes, "device") {
        None => return disk_error("No `device` attribute found on the `disk` tag."),
        Some(v) => v.clone(),
    };
    let driver = match find_child_exec(nodes, disk.id, "driver") {
        None => return disk_error("No `driver` tag found in the `disk` tag."),
        Some(i) => i,
    };
    assert(node_views(nodes@)[driver as int] == nodes@[driver as int]@);
    let format = match find_attribute_exec(&nodes[driver].attributes, "type") {
        None => return disk_error("No `type` attribute found on the `driver` tag."),
        Some(v) => v.clone(),
    };
    let target = match find_child_exec(nodes, disk.id, "target") {
        None => return disk_error("No `target` tag found in the `disk` tag."),
        Some(i) => i,
    };
    assert(node_views(nodes@)[target as int] == nodes@[target as int]@);
    let dev = match find_attribute_exec(&nodes[target].attributes, "dev") {
        None => return disk_error("No `dev` attribute found on the `target` tag."),
        Some(v) => v.clone(),
    };
    let source = match find_child_exec(nodes, disk.id, "source") {
        None => return disk_error("No `source` tag found in the `disk` tag."),
        Some(i) => i,
    };
    assert(node_views(nodes@)[source as int] == nodes@[source as int]@);
    let file = match find_attribute_exec(&nodes[source].attributes, "file") {
        None => return disk_error("No `file` attribute found on the `source` tag."),
        Some(v) => v.clone(),
    };
    Ok(DiskImage { device_name: dev, file_path: file, disk_format: format, disk_device: device })
}


proof fn lemma_all_where_step(len: int, f: spec_fn(int) -> bool)
    requires
        len >= 0,
    ensures
        all_where(len + 1, f) == if f(len) { all_where(len, f).push(len) } else { all_where(len, f) },
{
}

/// The disks of a machine definition, from its parsed nodes (see
/// [`spec_get_disks`]).
pub fn disks_of_nodes(nodes: &Vec<XmlNode>) -> (res: Result<Vec<DiskImage>>)
    ensures
        match spec_get_disks(node_views(nodes@)) {
            Err(m) => fails_with_message(res, m),
            Ok(ds) => res matches Ok(v) && disk_views(v@) == ds,
        },
{
    let ghost n = node_views(nodes@);
    let ghost is_devices = |k: int| is_tag(n, k, "devices"@);
    let mut devices: Option<usize> = None;
    let mut i: usize = 0;
    while i < nodes.len()
        invariant
            i <= nodes.len(),
            n == node_views(nodes@),
            is_devices == (|k: int| is_tag(n, k, "devices"@)),
            devices is None ==> find_first(i as int, is_devices) is None,
            devices matches Some(d) ==> find_first(nodes.len() as int, is_devices) == Some(d as int) && d < nodes.len(),
        decreases nodes.len() - i,
    {
        if devices.is_none() && nodes[i].is_element && str_eq(&nodes[i].tag_name, "devices") {
            assert(n[i as int] == nodes@[i as int]@);
            assert(is_devices(i as int));
            assert(find_first(i + 1, is_devices) == Some(i as int));
            proof {
                lemma_find_first_stable(i + 1, nodes.len() as int, is_devices);
            }
            devices = Some(i);
        } else if devices.is_none() {
            assert(n[i as int] == nodes@[i as int]@);
            assert(!is_devices(i as int));
        }
        i += 1;
    }
    let dv = match devices {
        None => return Err(CustomError::from_message("No `devices` tag found in the xml definition of the vm.")),
        Some(d) => d,
    };
    let devices_id = nodes[dv].id;
    assert(find_first(nodes.len() as int, |k: int| is_tag(n, k, "devices"@)) == Some(dv as int));
    assert(n[dv as int] == nodes@[dv as int]@);
    let ghost is_disk = |k: int| is_child_tag(n, k, n[dv as int].id, "disk"@);
    let mut results: Vec<DiskImage> = Vec::new();
    assert(disk_views(results@) =~= Seq::<DiskImageView>::empty());
    let mut j: usize = 0;
    while j < nodes.len()
        invariant
            j <= nodes.len(),
            n == node_views(nodes@),
            devices_id == n[dv as int].id,
            dv < nodes.len(),
            find_first(nodes.len() as int, |k: int| is_tag(n, k, "devices"@)) == Some(dv as int),
            is_disk == (|k: int| is_child_tag(n, k, n[dv as int].id, "disk"@)),
            spec_disks_at(n, all_where(j as int, is_disk)) == core::result::Result::<Seq<DiskImageView>, Seq<char>>::Ok(disk_views(results@)),
        decreases nodes.len() - j,
    {
        proof {
            lemma_all_where_step(j as int, is_disk);
        }
        assert(n[j as int] == nodes@[j as int]@);
        if nodes[j].parent == Some(devices_id) && nodes[j].is_element && str_eq(&nodes[j].tag_name, "disk") {
            assert(is_disk(j as int));
            let ghost idx = all_where(j + 1, is_disk);
            assert(idx.drop_last() == all_where(j as int, is_disk));
            assert(idx.last() == j as int);
            match get_disk(&nodes, j) {
                Err(e) => {
                    proof {
                        let m = spec_disk(n, j as int)->Err_0;
                        assert(spec_disks_at(n, idx) == core::result::Result::<Seq<DiskImageView>, Seq<char>>::Err(m));
                        lemma_disks_at_fails_after(n, all_where(nodes.len() as int, is_disk), j + 1, is_disk);
                    }
                    return Err(e);
                },
                Ok(d) => {
                    let ghost before = disk_views(results@);
                    results.push(d);
                    assert(disk_views(results@) =~= before.push(d@));
                    assert(spec_disks_at(n, idx) == core::result::Result::<Seq<DiskImageView>, Seq<char>>::Ok(before.push(d@)));
                },
            }
        } else {
            assert(!is_disk(j as int));
            assert(all_where(j + 1, is_disk) == all_where(j as int, is_disk));
        }
        j += 1;
    }
    Ok(results)
}

/// Reads the disks out of a virtual machine definition (the output of
/// `virsh dumpxml`).
pub fn get_disks(xml: &str) -> (res: Result<Vec<DiskImage>>)
    ensures
        match spec_parse_xml(xml@) {
            None => res matches Err(e) && e.kind is XmlError,
            Some(nodes) => match spec_get_disks(nodes) {
                Err(m) => fails_with_message(res, m),
                Ok(ds) => res matches Ok(v) && disk_views(v@) == ds,
            },
        },
{
    let nodes = match parse_xml(xml) {
        Ok(n) => n,
        Err(e) => return Err(CustomError { kind: CustomErrorKind::XmlError(e) }),
    };
    disks_of_nodes(&nodes)
}

proof fn lemma_all_where_prefix(i: int, len: int, f: spec_fn(int) -> bool)
    requires
        0 <= i <= len,
    ensures
        all_where(i, f) == all_where(len, f).take(all_where(i, f).len() as int),
        all_where(i, f).len() <= all_where(len, f).len(),
    decreases len - i,
{
    if i < len {
        lemma_all_where_prefix(i, len - 1, f);
        if f(len - 1) {
            assert(all_where(len, f).take(all_where(i, f).len() as int)
                =~= all_where(len - 1, f).take(all_where(i, f).len() as int));
        }
    } else {
        assert(all_where(len, f).take(all_where(len, f).len() as int) =~= all_where(len, f));
    }
}

proof fn lemma_disks_at_prefix_fails(nodes: Seq<XmlNodeView>, idx: Seq<int>, m: int)
    requires
        0 <= m <= idx.len(),
        spec_disks_at(nodes, idx.take(m)) is Err,
    ensures
        spec_disks_at(nodes, idx) is Err,
    decreases idx.len() - m,
{
    if m < idx.len() {
        assert(idx.take(m + 1).drop_last() =~= idx.take(m));
        lemma_disks_at_prefix_fails(nodes, idx, m + 1);
    } else {
        assert(idx.take(m) =~= idx);
    }
}

proof fn lemma_disks_at_fails_after(nodes: Seq<XmlNodeView>, all: Seq<int>, j1: int, f: spec_fn(int) -> bool)
    requires
        all == all_where(nodes.len() as int, f),
        0 <= j1 <= nodes.len(),
        spec_disks_at(nodes, all_where(j1, f)) is Err,
    ensures
        spec_disks_at(nodes, all) is Err,
        spec_disks_at(nodes, all) == spec_disks_at(nodes, all_where(j1, f)),
{
    lemma_all_where_prefix(j1, nodes.len() as int, f);
    lemma_disks_at_prefix_same(nodes, all, all_where(j1, f).len() as int);
}

proof fn lemma_disks_at_prefix_same(nodes: Seq<XmlNodeView>, idx: Seq<int>, m: int)
    requires
        0 <= m <= idx.len(),
        spec_disks_at(nodes, idx.take(m)) is Err,
    ensures
        spec_disks_at(nodes, idx) == spec_disks_at(nodes, idx.take(m)),
    decreases idx.len() - m,
{
    if m < idx.len() {
        assert(idx.take(m + 1).drop_last() =~= idx.take(m));
        lemma_disks_at_prefix_same(nodes, idx, m + 1);
    } else {
        assert(idx.take(m) =~= idx);
    }
}


/// The message of the error for a missing KVM configuration.
pub open spec fn kvm_not_configured_message() -> Seq<char> {
    "`KvmMachine` archiving is not configured."@
}

/// The KVM configuration named `config_name`.
pub open spec fn spec_kvm_config(config: AppConfig, config_name: Seq<char>) -> Option<KvmMachineConfig> {
    spec_lookup_opt(config.kvm_machine_config, config_name)
}

/// The command that prints the definition of the configured machine:
/// `virsh dumpxml <vm>`.
pub fn dump_xml_command(config: &AppConfig, config_name: &str) -> (res: Result<String>)
    ensures
        match spec_kvm_config(*config, config_name@) {
            None => fails_with_message(res, kvm_not_configured_message()),
            Some(k) => res matches Ok(c) && c@ == "virsh dumpxml "@ + k.vm_name@,
        },
{
    match lookup_opt(&config.kvm_machine_config, config_name) {
        None => Err(CustomError::from_message("`KvmMachine` archiving is not configured.")),
        Some(k) => {
            let mut c = "virsh dumpxml ".to_owned();
            c.append(k.vm_name.as_str());
            Ok(c)
        },
    }
}

/// The `qcow2` disks, in order.
pub open spec fn spec_available(disks: Seq<DiskImageView>) -> Seq<DiskImageView>
    decreases disks.len(),
{
    if disks.len() == 0 {
        Seq::empty()
    } else if disks.last().disk_format == "qcow2"@ {
        spec_available(disks.drop_last()).push(disks.last())
    } else {
        spec_available(disks.drop_last())
    }
}

/// The disks whose device is one of `names`, in order.
pub open spec fn spec_selected(disks: Seq<DiskImageView>, names: Seq<Seq<char>>) -> Seq<DiskImageView>
    decreases disks.len(),
{
    if disks.len() == 0 {
        Seq::empty()
    } else if names.contains(disks.last().device_name) {
        spec_selected(disks.drop_last(), names).push(disks.last())
    } else {
        spec_selected(disks.drop_last(), names)
    }
}

/// The commands that copy and check the selected disks into the parent of
/// the work directory, and whether a disk without a file name stopped them.
pub open spec fn spec_copy_commands(disks: Seq<DiskImageView>, work: Seq<char>) -> (Seq<Seq<char>>, bool)
    decreases disks.len(),
{
    if disks.len() == 0 {
        (Seq::empty(), false)
    } else {
        let (cmds, failed) = spec_copy_commands(disks.drop_last(), work);
        if failed {
            (cmds, true)
        } else {
            match spec_path_file_name(disks.last().file_path) {
                None => (cmds, true),
                Some(name) => {
                    let new_path = spec_path_push(spec_path_pop(work), name);
                    (cmds.push("qemu-img convert -O qcow2 "@ + disks.last().file_path + " "@ + new_path)
                        .push("qemu-img check "@ + new_path), false)
                },
            }
        }
    }
}

/// The commands that merge each snapshot back and remove its file.
pub open spec fn spec_cleanup_commands(disks: Seq<DiskImageView>, vm: Seq<char>) -> Seq<Seq<char>>
    decreases disks.len(),
{
    if disks.len() == 0 {
        Seq::empty()
    } else {
        let d = disks.last();
        spec_cleanup_commands(disks.drop_last(), vm)
            .push("virsh blockcommit "@ + vm + " "@ + d.device_name + " --active --pivot"@)
            .push(cmd_remove_file(spec_path_set_extension(d.file_path, "backup-snapshot"@)))
    }
}

/// The shell work that copies the disks of a machine into an archive: the
/// `snapshot` is taken, the definition is written to `xml_file_name`, the
/// `copies` run (then `copy_error`, if any, ends the work), and `cleanup`
/// runs last whatever happened.
pub struct KvmArchivePlan {
    pub xml_file_name: String,
    pub snapshot: String,
    pub copies: Vec<String>,
    pub copy_error: Option<CustomError>,
    pub cleanup: Vec<String>,
}

/// The plan for the machine of the configuration `config_name`, whose
/// definition `virsh dumpxml` printed as `vm_xml`.
pub open spec fn spec_kvm_plan(plan: KvmArchivePlan, k: KvmMachineConfig, disks: Seq<DiskImageView>, work: Seq<char>) -> bool {
    let available = spec_available(disks);
    let selected = spec_selected(available, string_views(k.device_names@));
    let (copies, failed) = spec_copy_commands(selected, work);
    &&& plan.xml_file_name@ == spec_path_push(work, "machine.xml"@)
    &&& plan.snapshot@ == "virsh snapshot-create-as --domain "@ + k.vm_name@ + " backup-snapshot --disk-only --atomic"@
    &&& commands(plan.copies) == copies
    &&& (plan.copy_error is Some <==> failed)
    &&& plan.copy_error matches Some(e) ==> crate::errors::is_error_message(e, crate::archive_helper::no_file_name_message())
    &&& commands(plan.cleanup) == spec_cleanup_commands(available, k.vm_name@).push(
        "virsh snapshot-delete "@ + k.vm_name@ + " --metadata backup-snapshot"@)
}

fn filter_available(disks: &Vec<DiskImage>) -> (res: Vec<DiskImage>)
    ensures
        disk_views(res@) == spec_available(disk_views(disks@)),
{
    let mut res: Vec<DiskImage> = Vec::new();
    let mut i: usize = 0;
    while i < disks.len()
        invariant
            i <= disks.len(),
            disk_views(res@) == spec_available(disk_views(disks@.take(i as int))),
        decreases disks.len() - i,
    {
        assert(disk_views(disks@.take(i + 1)).drop_last() =~= disk_views(disks@.take(i as int)));
        assert(disk_views(disks@.take(i + 1)).last() == disks@[i as int]@);
        if str_eq(&disks[i].disk_format, "qcow2") {
            let d = DiskImage {
                device_name: disks[i].device_name.clone(),
                file_path: disks[i].file_path.clone(),
                disk_format: disks[i].disk_format.clone(),
                disk_device: disks[i].disk_device.clone(),
            };
            res.push(d);
            assert(disk_views(res@) =~= disk_views(res@.drop_last()).push(res@.last()@));
        }
        i += 1;
    }
    assert(disks@.take(disks.len() as int) =~= disks@);
    res
}

fn contains_name(names: &Vec<String>, name: &String) -> (res: bool)
    ensures
        res == string_views(names@).contains(name@),
{
    let mut i: usize = 0;
    while i < names.len()
        invariant
            i <= names.len(),
            forall|k: int| 0 <= k < i ==> names@[k]@ != name@,
        decreases names.len() - i,
    {
        if names[i] == *name {
            assert(string_views(names@)[i as int] == name@);
            return true;
        }
        i += 1;
    }
    proof {
        if string_views(names@).contains(name@) {
            let k = choose|k: int| 0 <= k < string_views(names@).len() && string_views(names@)[k] == name@;
            assert(names@[k]@ == name@);
        }
    }
    false
}

/// Plans the archiving of the machine of the configuration `config_name`
/// into `work_path`, given its definition `vm_xml`.
pub fn create_kvm_machine_archive(config: &AppConfig, config_name: &str, work_path: &str, vm_xml: &str) -> (res: Result<KvmArchivePlan>)
    ensures
        match spec_kvm_config(*config, config_name@) {
            None => fails_with_message(res, kvm_not_configured_message()),
            Some(k) => match spec_parse_xml(vm_xml@) {
                None => res matches Err(e) && e.kind is XmlError,
                Some(nodes) => match spec_get_disks(nodes) {
                    Err(m) => fails_with_message(res, m),
                    Ok(ds) => res matches Ok(p) && spec_kvm_plan(p, k, ds, work_path@),
                },
            },
        },
{
    let k = match lookup_opt(&config.kvm_machine_config, config_name) {
        None => return Err(CustomError::from_message("`KvmMachine` archiving is not configured.")),
        Some(k) => k,
    };
    let disks = match get_disks(vm_xml) {
        Ok(d) => d,
        Err(e) => return Err(e),
    };
    let xml_file_name = path_push(work_path, "machine.xml");
    let available = filter_available(&disks);

    let ghost names = string_views(k.device_names@);
    let ghost av = disk_views(available@);
    let mut selected: Vec<usize> = Vec::new();
    let ghost mut sel: Seq<DiskImageView> = Seq::empty();
    let mut i: usize = 0;
    while i < available.len()
        invariant
            i <= available.len(),
            av == disk_views(available@),
            names == string_views(k.device_names@),
            sel == spec_selected(av.take(i as int), names),
            sel.len() == selected@.len(),
            forall|q: int| 0 <= q < selected@.len() ==> (#[trigger] selected@[q]) < available.len()
                && sel[q] == av[selected@[q] as int],
        decreases available.len() - i,
    {
        assert(av.take(i + 1).drop_last() =~= av.take(i as int));
        assert(av.take(i + 1).last() == av[i as int]);
        if contains_name(&k.device_names, &available[i].device_name) {
            selected.push(i);
            proof { sel = sel.push(av[i as int]); }
        }
        i += 1;
    }
    assert(av.take(available.len() as int) =~= av);

    let mut snapshot = "virsh snapshot-create-as --domain ".to_owned();
    snapshot.append(k.vm_name.as_str());
    snapshot.append(" backup-snapshot --disk-only --atomic");

    let parent = work_path.get_directory();
    let mut copies: Vec<String> = Vec::new();
    let mut copy_error: Option<CustomError> = None;
    let mut q: usize = 0;
    while q < selected.len()
        invariant
            q <= selected.len(),
            av == disk_views(available@),
            sel.len() == selected@.len(),
            forall|r: int| 0 <= r < selected@.len() ==> (#[trigger] selected@[r]) < available.len()
                && sel[r] == av[selected@[r] as int],
            parent@ == spec_path_pop(work_path@),
            commands(copies) == spec_copy_commands(sel.take(q as int), work_path@).0,
            copy_error is Some <==> spec_copy_commands(sel.take(q as int), work_path@).1,
            copy_error matches Some(e) ==> crate::errors::is_error_message(e, crate::archive_helper::no_file_name_message()),
        decreases selected.len() - q,
    {
        assert(sel.take(q + 1).drop_last() =~= sel.take(q as int));
        assert(sel.take(q + 1).last() == sel[q as int]);
        if copy_error.is_none() {
            let d = &available[selected[q]];
            assert(d@ == av[selected@[q as int] as int]);
            match d.file_path.as_str().file_name_as_string() {
                Err(e) => {
                    copy_error = Some(e);
                },
                Ok(name) => {
                    let new_path = path_push(parent.as_str(), name.as_str());
                    let mut convert = "qemu-img convert -O qcow2 ".to_owned();
                    convert.append(d.file_path.as_str());
                    convert.append(" ");
                    convert.append(new_path.as_str());
                    let mut check = "qemu-img check ".to_owned();
                    check.append(new_path.as_str());
                    let ghost before = commands(copies);
                    copies.push(convert);
                    copies.push(check);
                    assert(commands(copies) =~= before.push(convert@).push(check@));
                },
            }
        }
        q += 1;
    }
    assert(sel.take(selected.len() as int) =~= sel);

    let mut cleanup: Vec<String> = Vec::new();
    let mut c: usize = 0;
    while c < available.len()
        invariant
            c <= available.len(),
            av == disk_views(available@),
            commands(cleanup) == spec_cleanup_commands(av.take(c as int), k.vm_name@),
        decreases available.len() - c,
    {
        assert(av.take(c + 1).drop_last() =~= av.take(c as int));
        assert(av.take(c + 1).last() == av[c as int]);
        let d = &available[c];
        let mut commit = "virsh blockcommit ".to_owned();
        commit.append(k.vm_name.as_str());
        commit.append(" ");
        commit.append(d.device_name.as_str());
        commit.append(" --active --pivot");
        proof {
            reveal_strlit("backup-snapshot");
            if "backup-snapshot"@.contains('/') {
                let q = choose|q: int| 0 <= q < "backup-snapshot"@.len() && "backup-snapshot"@[q] == '/';
            }
        }
        let snapshot_path = path_set_extension(d.file_path.as_str(), "backup-snapshot");
        let remove = remove_file_command(snapshot_path.as_str());
        let ghost before = commands(cleanup);
        cleanup.push(commit);
        cleanup.push(remove);
        assert(commands(cleanup) =~= before.push(commit@).push(remove@));
        c += 1;
    }
    assert(av.take(available.len() as int) =~= av);
    let mut delete = "virsh snapshot-delete ".to_owned();
    delete.append(k.vm_name.as_str());
    delete.append(" --metadata backup-snapshot");
    let ghost before = commands(cleanup);
    cleanup.push(delete);
    assert(commands(cleanup) =~= before.push(delete@));

    Ok(KvmArchivePlan { xml_file_name, snapshot, copies, copy_error, cleanup })
}

/// Restoring a machine archive is not supported: it is always this error.
pub open spec fn kvm_restore_message() -> Seq<char> {
    "Archive restoration is not supported for type `kvm-machine`. You can unpack it and restore it manually."@
}

/// Restoring a machine archive is not supported; the archive can be unpacked
/// and restored by hand.
pub fn restore_kvm_machine_archive(_config_name: &str, _work_path: &str, _compressed: &str) -> (res: Result<()>)
    ensures
        fails_with_message(res, kvm_restore_message()),
{
    Err(CustomError::from_message("Archive restoration is not supported for type `kvm-machine`. You can unpack it and restore it manually."))
}

} // verus!

verus! {

/// The work that the machine script hands to its caller.
pub enum KvmHook {
    /// Write `contents` (the machine's definition) to the file `path`.
    WriteDefinition { path: String, contents: String },
}

impl View for KvmHook {
    type V = (Seq<char>, Seq<char>);

    open spec fn view(&self) -> (Seq<char>, Seq<char>) {
        match self {
            KvmHook::WriteDefinition { path, contents } => (path@, contents@),
        }
    }
}

/// The script of `plan` for the machine whose definition is `vm_xml`: the
/// snapshot, the writing of the definition, the copies of the disks; then
/// the cleanup commands, whatever happened, stopping at the first that fails.
pub open spec fn kvm_script_shape(script: Script<KvmHook>, plan: KvmArchivePlan, vm_xml: Seq<char>) -> bool {
    &&& !script.keep_going
    &&& step_views(script.body@) == seq![StepView::Shell(plan.snapshot@), StepView::Hook((plan.xml_file_name@, vm_xml))]
        + shells::<(Seq<char>, Seq<char>)>(commands(plan.copies))
    &&& step_views(script.cleanup@) == shells::<(Seq<char>, Seq<char>)>(commands(plan.cleanup))
}

/// What the body of a machine script ends in once its steps succeeded: the
/// error of a disk without a file name, if any.
pub open spec fn kvm_value(copy_error: Option<CustomError>) -> Result<()> {
    match copy_error {
        Some(e) => Err(e),
        None => Ok(()),
    }
}

/// Archives the machine by the steps of `plan` (see [`kvm_script_shape`]),
/// handing each to `perform`: the body stops at its first failure, and a
/// disk without a file name ends it with that error; the cleanup runs
/// afterwards, failed body or not, and stops at its first failing command;
/// the body's error wins over the cleanup's.
pub fn run_kvm_machine_archive<F: Fn(&Step<KvmHook>) -> Result<()>>(plan: KvmArchivePlan, vm_xml: &str, perform: F) -> (res: Result<()>)
    requires
        forall|st: Step<KvmHook>| call_requires(perform, (&st,)),
    ensures
        exists|script: Script<KvmHook>|
            #![trigger kvm_script_shape(script, plan, vm_xml@)]
            kvm_script_shape(script, plan, vm_xml@)
            && script_outcome(script, perform, kvm_value(plan.copy_error), res),
{
    let ghost p = plan;
    let mut body: Vec<Step<KvmHook>> = Vec::new();
    body.push(Step::Shell(plan.snapshot.clone()));
    body.push(Step::Hook(KvmHook::WriteDefinition { path: plan.xml_file_name.clone(), contents: vm_xml.to_owned() }));
    let ghost head = step_views(body@);
    assert(head =~= seq![StepView::Shell(plan.snapshot@), StepView::Hook((plan.xml_file_name@, vm_xml@))]);
    let mut copies: Vec<Step<KvmHook>> = shell_steps(&plan.copies);
    let ghost tail = step_views(copies@);
    body.append(&mut copies);
    assert(step_views(body@) =~= head + tail);
    let cleanup: Vec<Step<KvmHook>> = shell_steps(&plan.cleanup);
    let script = Script { body, cleanup, keep_going: false };
    assert(kvm_script_shape(script, p, vm_xml@));
    assert forall|k: int| 0 <= k < script.body@.len() implies call_requires(perform, (&#[trigger] script.body@[k],)) by {
        let st = script.body@[k];
        assert(call_requires(perform, (&st,)));
    }
    assert forall|k: int| 0 <= k < script.cleanup@.len() implies call_requires(perform, (&#[trigger] script.cleanup@[k],)) by {
        let st = script.cleanup@[k];
        assert(call_requires(perform, (&st,)));
    }
    let value = match plan.copy_error {
        Some(e) => Err(e),
        None => Ok(()),
    };
    run_script(&script, value, &perform)
}

} // verus!

verus! {

/// The available disks are exactly the `qcow2` disks of the machine, in
/// their order, whatever their device: every available disk is a disk of
/// the machine in `qcow2` format, and every `qcow2` disk of the machine is
/// available.
pub proof fn lemma_available_are_the_qcow2_disks(disks: Seq<DiskImageView>)
    ensures
        spec_available(disks) == disks.filter(|d: DiskImageView| d.disk_format == "qcow2"@),
        forall|k: int| 0 <= k < spec_available(disks).len()
            ==> (#[trigger] spec_available(disks)[k]).disk_format == "qcow2"@ && disks.contains(spec_available(disks)[k]),
        forall|i: int| 0 <= i < disks.len() && (#[trigger] disks[i]).disk_format == "qcow2"@
            ==> spec_available(disks).contains(disks[i]),
    decreases disks.len(),
{
    let p = |d: DiskImageView| d.disk_format == "qcow2"@;
    if disks.len() == 0 {
        reveal_with_fuel(Seq::<_>::filter, 1);
    } else {
        let init = disks.drop_last();
        lemma_available_are_the_qcow2_disks(init);
        assert(disks.filter(p) == if p(disks.last()) { init.filter(p).push(disks.last()) } else { init.filter(p) }) by {
            reveal_with_fuel(Seq::<_>::filter, 1);
        }
        let a = spec_available(disks);
        let ai = spec_available(init);
        assert forall|k: int| 0 <= k < a.len() implies (#[trigger] a[k]).disk_format == "qcow2"@ && disks.contains(a[k]) by {
            if k < ai.len() {
                assert(a[k] == ai[k]);
                let j = choose|j: int| 0 <= j < init.len() && init[j] == ai[k];
                assert(disks[j] == init[j]);
            } else {
                assert(a[k] == disks.last());
                assert(disks[disks.len() - 1] == disks.last());
            }
        }
        assert forall|i: int| 0 <= i < disks.len() && (#[trigger] disks[i]).disk_format == "qcow2"@
            implies a.contains(disks[i]) by {
            if i < disks.len() - 1 {
                assert(init[i] == disks[i]);
                let k = choose|k: int| 0 <= k < ai.len() && ai[k] == init[i];
                assert(a[k] == ai[k]);
            } else {
                assert(a[ai.len() as int] == disks[i]);
            }
        }
    }
}

} // verus!
