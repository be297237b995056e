//! What a deployment asks of the hypervisor, and what Kubernetes says of its containers.
use vstd::prelude::*;

use crate::annotations::{
    is_set, is_unsupported, kernel_setting, megabytes, memory_setting, name_fault, settings,
    switch_setting, value_of, vcpu_setting, AnnotationFault, EnabledOptions, NameKind,
    SettingsView,
};
use crate::hypervisor::{
    foreign_hypervisor, first_foreign, hypervisor_fault, is_adjusted, is_confidential, over_limit,
    whole_over_limit, Hypervisor, HypervisorFault, TomlConfig, Vcpus,
};
use crate::k8s::{lies_in, sandbox_id_in, type_in, type_of, ContainerType};
use crate::oci::Spec;
use crate::path::{components, joined};
use crate::text::trimmed;
use crate::volume::{goes_on_from, volume_file, volume_name};

verus! {

/// A text, or another where it is empty.
pub open spec fn or_else(s: Seq<char>, other: Seq<char>) -> Seq<char> {
    if s.len() > 0 {
        s
    } else {
        other
    }
}

/// What is filled in where a configuration says nothing, and that all else stays.
pub proof fn law_what_is_filled_in(a: Hypervisor, b: Hypervisor)
    requires
        is_adjusted(a, b),
    ensures
        b.boot_info.kernel@ == or_else(a.boot_info.kernel@, "vmlinux"@),
        b.boot_info.kernel_params@ == a.boot_info.kernel_params@,
        b.boot_info.vm_rootfs_driver@ == or_else(
            a.boot_info.vm_rootfs_driver@,
            "virtio-blk-mmio"@,
        ),
        b.block_device_driver@ == or_else(a.block_device_driver@, "virtio-blk-mmio"@),
        b.entropy_source@ == or_else(a.entropy_source@, "/dev/urandom"@),
        a.default_memory == 0 ==> b.default_memory == 128,
        a.default_memory != 0 ==> b.default_memory == a.default_memory,
        b.path == a.path,
        b.boot_info.image == a.boot_info.image,
        b.default_vcpus == a.default_vcpus,
        b.default_maxvcpus == a.default_maxvcpus,
        b.security_info == a.security_info,
{
    reveal_strlit("");
    assert(""@ =~= Seq::<char>::empty());
    if a.boot_info.kernel_params@.len() == 0 {
        assert(a.boot_info.kernel_params@ =~= Seq::<char>::empty());
    }
}

/// What is wrong with a hypervisor, in the order of the checks: a confidential guest, no path,
/// a path that is no good, no kernel, no image, more than 32 virtual CPUs, or less than 128
/// megabytes.
pub proof fn law_which_hypervisors_are_refused(h: Hypervisor, path: Result<(), String>)
    ensures
        ({
            let secret = h.security_info.confidential_guest || h.security_info.initdata@.len() > 0;
            let many = 0x4204_0000 <= h.default_vcpus.bits <= 0x7f80_0000 || h.default_maxvcpus
                > 32;
            &&& is_confidential(h) == secret
            &&& hypervisor_fault(h, path) == if secret {
                Some(HypervisorFault::Confidential)
            } else if h.path@.len() == 0 {
                Some(HypervisorFault::EmptyPath)
            } else if path is Err {
                Some(HypervisorFault::InvalidPath(path->Err_0@))
            } else if h.boot_info.kernel@.len() == 0 {
                Some(HypervisorFault::EmptyKernel)
            } else if h.boot_info.image@.len() == 0 {
                Some(HypervisorFault::EmptyImage)
            } else if many {
                Some(HypervisorFault::TooManyVcpus(h.default_maxvcpus))
            } else if h.default_memory < 128 {
                Some(HypervisorFault::TooLittleMemory)
            } else {
                None
            }
        }),
{
}

/// Numbers of virtual CPUs are ordered as their bits: those above 32 are too many, and those
/// whose whole part is above 32 begin at 33. Infinity is too many, and what is no number is
/// not.
pub proof fn law_which_numbers_of_cpus_are_too_many(v: Vcpus)
    ensures
        over_limit(v) <==> 0x4200_0000 < v.bits <= 0x7f80_0000,
        whole_over_limit(v) <==> 0x4204_0000 <= v.bits <= 0x7f80_0000,
        whole_over_limit(v) ==> over_limit(v),
{
}

/// The first hypervisor of a configuration that is not the supported one is named; else the
/// one that the runtime asks for, where it asks for another.
pub proof fn law_which_hypervisor_is_foreign(conf: TomlConfig, i: int)
    requires
        ({
            let e = conf.hypervisor.entries();
            &&& 0 <= i <= e.len()
            &&& forall|k: int| 0 <= k < i ==> (#[trigger] e[k]).0@ == "firecracker"@
            &&& i < e.len() ==> e[i].0@ != "firecracker"@
        }),
    ensures
        ({
            let e = conf.hypervisor.entries();
            let asked = conf.runtime.hypervisor_name@;
            foreign_hypervisor(conf) == if i < e.len() {
                Some(e[i].0@)
            } else if asked.len() > 0 && asked != "firecracker"@ {
                Some(asked)
            } else {
                None
            }
        }),
{
    lemma_foreign(conf.hypervisor.entries(), i);
}

proof fn lemma_foreign(e: Seq<(String, Hypervisor)>, i: int)
    requires
        0 <= i <= e.len(),
        forall|k: int| 0 <= k < i ==> (#[trigger] e[k]).0@ == "firecracker"@,
        i < e.len() ==> e[i].0@ != "firecracker"@,
    ensures
        first_foreign(e) == if i < e.len() {
            Some(e[i].0@)
        } else {
            None
        },
    decreases e.len(),
{
    if i > 0 {
        let rest = e.skip(1);
        assert(e[0].0@ == "firecracker"@);
        assert forall|k: int| 0 <= k < i - 1 implies (#[trigger] rest[k]).0@ == "firecracker"@ by {
            assert(rest[k] == e[k + 1]);
        }
        lemma_foreign(rest, i - 1);
    }
}

/// The annotation with the virtual CPUs.
pub open spec fn vcpu_key() -> Seq<char> {
    "io.katacontainers.config.hypervisor.default_vcpus"@
}

/// The annotation with the memory.
pub open spec fn memory_key() -> Seq<char> {
    "io.katacontainers.config.hypervisor.default_memory"@
}

/// The annotation with the kernel.
pub open spec fn kernel_key() -> Seq<char> {
    "io.katacontainers.config.hypervisor.kernel"@
}

/// The annotation with the tracing of the agent.
pub open spec fn agent_key() -> Seq<char> {
    "io.katacontainers.config.agent.enable_tracing"@
}

/// The annotation with the tracing of the runtime.
pub open spec fn runtime_key() -> Seq<char> {
    "io.katacontainers.config.runtime.enable_tracing"@
}

/// An annotation that sets an option is refused unless it is one of five.
pub proof fn law_which_annotations_are_refused(key: Seq<char>)
    ensures
        is_unsupported(key) <==> "io.katacontainers.config."@.is_prefix_of(key) && key
            != vcpu_key() && key != memory_key() && key != kernel_key() && key != agent_key() && key
            != runtime_key(),
{
}

/// The virtual CPUs are set where their annotation is there and enabled: a text that is no
/// number is an error, and so are more than 32.
pub proof fn law_how_cpus_are_set(
    a: Map<Seq<char>, String>,
    enabled: EnabledOptions,
    read: Option<Vcpus>,
)
    ensures
        ({
            let r = vcpu_setting(a, enabled, read);
            let asked = a.contains_key(vcpu_key()) && enabled.vcpus;
            &&& !asked ==> r == Ok::<Option<Vcpus>, AnnotationFault>(None)
            &&& asked && read is None ==> r == Err::<Option<Vcpus>, AnnotationFault>(
                AnnotationFault::ParseVcpus,
            )
            &&& asked && read is Some && 0x4200_0000 < read->0.bits <= 0x7f80_0000 ==> r == Err::<
                Option<Vcpus>,
                AnnotationFault,
            >(AnnotationFault::TooManyVcpus(read->0))
            &&& asked && read is Some && !(0x4200_0000 < read->0.bits <= 0x7f80_0000) ==> r == Ok::<
                Option<Vcpus>,
                AnnotationFault,
            >(Some(read->0))
        }),
{
}

/// The memory is set where its annotation is there and enabled: less than 128 megabytes is an
/// error, and a text that gives no amount is passed over.
pub proof fn law_how_memory_is_set(
    a: Map<Seq<char>, String>,
    enabled: EnabledOptions,
    parsed: Option<u64>,
)
    ensures
        ({
            let r = memory_setting(a, enabled, parsed);
            let asked = a.contains_key(memory_key()) && enabled.memory;
            let m = megabytes(a[memory_key()]@, parsed);
            &&& !asked ==> r == Ok::<Option<u32>, AnnotationFault>(None)
            &&& asked && m is Err ==> r == m
            &&& asked && m == Ok::<Option<u32>, AnnotationFault>(None) ==> r == m
            &&& asked && m is Ok && m->Ok_0 is Some && m->Ok_0->0 < 128 ==> r == Err::<
                Option<u32>,
                AnnotationFault,
            >(AnnotationFault::TooLittleMemory(m->Ok_0->0))
            &&& asked && m is Ok && m->Ok_0 is Some && m->Ok_0->0 >= 128 ==> r == m
        }),
{
}

/// Whether a text is digits alone, but for the white space around it.
pub open spec fn is_bare(text: Seq<char>) -> bool {
    forall|i: int|
        0 <= i < trimmed(text).len() ==> '0' as u32 <= (#[trigger] trimmed(text)[i]) as u32
            <= '9' as u32
}

/// How many megabytes a text gives: a number without a unit counts megabytes, and an amount
/// with one is rounded down to whole ones; neither goes beyond 32 bits.
pub proof fn law_how_many_megabytes_a_text_gives(text: Seq<char>, n: u64)
    ensures
        megabytes(text, None) == Ok::<Option<u32>, AnnotationFault>(None),
        is_bare(text) && n <= 0xffff_ffff ==> megabytes(text, Some(n)) == Ok::<
            Option<u32>,
            AnnotationFault,
        >(Some(n as u32)),
        is_bare(text) && n * 0x10_0000 > 0xffff_ffff_ffff_ffff ==> megabytes(text, Some(n))
            == Err::<Option<u32>, AnnotationFault>(AnnotationFault::MemoryTooLarge(n)),
        !is_bare(text) && n / 0x10_0000 <= 0xffff_ffff ==> megabytes(text, Some(n)) == Ok::<
            Option<u32>,
            AnnotationFault,
        >(Some((n / 0x10_0000) as u32)),
{
}

/// A switch is on or off by its word, white space aside, and any other word is an error; the
/// kernel is what its annotation says, where that is enabled.
pub proof fn law_how_switches_and_the_kernel_are_set(
    a: Map<Seq<char>, String>,
    enabled: EnabledOptions,
    key: Seq<char>,
)
    ensures
        !a.contains_key(key) ==> switch_setting(a, key) == Ok::<Option<bool>, AnnotationFault>(
            None,
        ),
        a.contains_key(key) && trimmed(a[key]@) == "true"@ ==> switch_setting(a, key) == Ok::<
            Option<bool>,
            AnnotationFault,
        >(Some(true)),
        a.contains_key(key) && trimmed(a[key]@) == "false"@ ==> switch_setting(a, key) == Ok::<
            Option<bool>,
            AnnotationFault,
        >(Some(false)),
        a.contains_key(key) && trimmed(a[key]@) != "true"@ && trimmed(a[key]@) != "false"@
            ==> switch_setting(a, key) == Err::<Option<bool>, AnnotationFault>(
            AnnotationFault::ParseBool,
        ),
        kernel_setting(a, enabled) == if enabled.kernel && a.contains_key(kernel_key()) {
            Some(trimmed(a[kernel_key()]@))
        } else {
            None
        },
{
    reveal_strlit("true");
    reveal_strlit("false");
    assert("true"@.len() != "false"@.len());
}

/// What annotations set, field by field, where all of them can be read; else the first error
/// counts, in the order of virtual CPUs, memory, the agent and the runtime.
pub proof fn law_what_annotations_set(
    a: Map<Seq<char>, String>,
    enabled: EnabledOptions,
    vcpus: Option<Vcpus>,
    parsed: Option<u64>,
)
    ensures
        ({
            let r = settings(a, enabled, vcpus, parsed);
            let c = vcpu_setting(a, enabled, vcpus);
            let m = memory_setting(a, enabled, parsed);
            let g = switch_setting(a, agent_key());
            let t = switch_setting(a, runtime_key());
            &&& c is Err ==> r is Err && r->Err_0 == c->Err_0
            &&& c is Ok && m is Err ==> r is Err && r->Err_0 == m->Err_0
            &&& c is Ok && m is Ok && g is Err ==> r is Err && r->Err_0 == g->Err_0
            &&& c is Ok && m is Ok && g is Ok && t is Err ==> r is Err && r->Err_0 == t->Err_0
            &&& c is Ok && m is Ok && g is Ok && t is Ok ==> r is Ok && r->Ok_0.vcpus == c->Ok_0
                && r->Ok_0.memory == m->Ok_0 && r->Ok_0.kernel == kernel_setting(a, enabled)
                && r->Ok_0.agent_tracing == g->Ok_0 && r->Ok_0.runtime_tracing == t->Ok_0
        }),
{
}

/// What settings change of a hypervisor: the kernel, the virtual CPUs and the memory, each
/// where it is set, and nothing else.
pub proof fn law_what_settings_change(a: Hypervisor, b: Hypervisor, s: SettingsView)
    requires
        is_set(a, b, s),
    ensures
        s.kernel is Some ==> b.boot_info.kernel@ == s.kernel->0,
        s.kernel is None ==> b.boot_info.kernel@ == a.boot_info.kernel@,
        s.vcpus is Some ==> b.default_vcpus == s.vcpus->0,
        s.vcpus is None ==> b.default_vcpus == a.default_vcpus,
        s.memory is Some ==> b.default_memory == s.memory->0,
        s.memory is None ==> b.default_memory == a.default_memory,
        b.path == a.path,
        b.boot_info.image == a.boot_info.image,
        b.boot_info.kernel_params == a.boot_info.kernel_params,
        b.boot_info.vm_rootfs_driver == a.boot_info.vm_rootfs_driver,
        b.block_device_driver == a.block_device_driver,
        b.entropy_source == a.entropy_source,
        b.default_maxvcpus == a.default_maxvcpus,
        b.security_info == a.security_info,
{
}

/// A configuration must name its runtime, its hypervisor and its agent, and have the latter
/// two; what is missing first is told.
pub proof fn law_which_names_a_configuration_must_have(conf: TomlConfig)
    ensures
        ({
            let r = conf.runtime;
            name_fault(conf) == if r.name@.len() == 0 {
                Some(AnnotationFault::NameMissing(NameKind::Runtime))
            } else if r.hypervisor_name@.len() == 0 {
                Some(AnnotationFault::NameMissing(NameKind::Hypervisor))
            } else if r.agent_name@.len() == 0 {
                Some(AnnotationFault::NameMissing(NameKind::Agent))
            } else if !conf.hypervisor@.contains_key(r.hypervisor_name@) {
                Some(AnnotationFault::InvalidHypervisor(r.hypervisor_name@))
            } else if !conf.agent@.contains_key(r.agent_name@) {
                Some(AnnotationFault::InvalidAgent(r.agent_name@))
            } else {
                None
            }
        }),
{
}

/// The value of an annotation is its text without the white space around it.
pub proof fn law_annotations_are_trimmed(a: Map<Seq<char>, String>, key: Seq<char>)
    ensures
        a.contains_key(key) ==> value_of(a, key) == Some(trimmed(a[key]@)),
        !a.contains_key(key) ==> value_of(a, key) is None,
{
}

/// Which type a name stands for.
pub proof fn law_which_type_a_name_is(name: Seq<char>)
    ensures
        type_of(name) == Some(ContainerType::PodContainer) <==> name == "pod_container"@ || name
            == "container"@,
        type_of(name) == Some(ContainerType::PodSandbox) <==> name == "pod_sandbox"@ || name
            == "podsandbox"@ || name == "sandbox"@,
        type_of(name) == Some(ContainerType::SingleContainer) <==> name == "single_container"@,
{
    reveal_strlit("pod_container");
    reveal_strlit("container");
    reveal_strlit("pod_sandbox");
    reveal_strlit("podsandbox");
    reveal_strlit("sandbox");
    reveal_strlit("single_container");
    assert("pod_container"@.len() == 13 && "container"@.len() == 9 && "pod_sandbox"@.len() == 11
        && "podsandbox"@.len() == 10 && "sandbox"@.len() == 7 && "single_container"@.len() == 16);
}

/// The type under an annotation.
pub open spec fn typed(spec: Spec, key: Seq<char>) -> Option<ContainerType> {
    if spec.annotation_of(key) is Some {
        type_of(spec.annotation_of(key)->0)
    } else {
        None
    }
}

/// What a container is to its pod: three annotations are looked at in order, and the first
/// with a known type counts; without one a container stands for itself. Only a container in a
/// pod has the id of a sandbox, which is looked for in three annotations in the same way.
pub proof fn law_what_a_container_is_to_its_pod(spec: Spec)
    ensures
        ({
            let a = typed(spec, "io.kubernetes.cri-o.ContainerType"@);
            let b = typed(spec, "io.kubernetes.cri.container-type"@);
            let c = typed(spec, "io.kubernetes.docker.type"@);
            type_in(spec) == if a is Some {
                a->0
            } else if b is Some {
                b->0
            } else if c is Some {
                c->0
            } else {
                ContainerType::SingleContainer
            }
        }),
        ({
            let a = spec.annotation_of("io.kubernetes.cri-o.SandboxID"@);
            let b = spec.annotation_of("io.kubernetes.cri.sandbox-id"@);
            let c = spec.annotation_of("io.kubernetes.sandbox.id"@);
            sandbox_id_in(spec) == if type_in(spec) != ContainerType::PodContainer {
                None
            } else if a is Some {
                a
            } else if b is Some {
                b
            } else {
                c
            }
        }),
{
}

/// A path is a volume of a kind where the name of that kind stands right above its last
/// component.
pub proof fn law_which_paths_are_volumes(base: Seq<char>, dir: Seq<char>, name: Seq<char>)
    requires
        !dir.contains('/') && dir.len() > 0 && dir != seq!['.'] && dir != seq!['.', '.'],
        !name.contains('/') && name.len() > 0 && name != seq!['.'],
    ensures
        lies_in(base.push('/') + dir + seq!['/'] + name, dir),
{
    let a = base.push('/') + dir;
    super::words::law_a_name_behind_a_slash_is_a_component(base, dir);
    super::words::law_a_name_behind_a_slash_is_a_component(a, name);
    assert(a.push('/') + name =~= base.push('/') + dir + seq!['/'] + name);
    assert(components(a.push('/') + name) == components(base).push(dir).push(name));
}

/// The description of a volume stands in a directory of its own beneath the root.
pub proof fn law_where_a_volume_is_described(root: Seq<char>, path: Seq<char>)
    ensures
        volume_file(root, path) == joined(joined(root, volume_name(path)), "mountInfo.json"@),
{
}

/// A type goes on from a prefix where it begins with it and has more behind it.
pub proof fn law_which_types_go_on(prefix: Seq<char>, rest: Seq<char>)
    ensures
        goes_on_from(prefix + rest, prefix) <==> rest.len() > 0,
{
    let t = prefix + rest;
    assert(t.subrange(0, prefix.len() as int) =~= prefix);
    assert(prefix.is_prefix_of(t));
}

/// The only hypervisor that can be registered is the supported one.
pub proof fn law_which_hypervisor_is_registered(
    p: crate::hypervisor::HypervisorPlugins,
    name: Seq<char>,
)
    ensures
        p.has(name) <==> name == "firecracker"@ && p.firecracker is Some,
{
}

/// A path is a volume of a kind only where the name of that kind is its last component but
/// one.
pub proof fn law_only_such_paths_are_volumes(path: Seq<char>, dir: Seq<char>)
    requires
        lies_in(path, dir),
    ensures
        components(path).len() >= 2,
        components(path)[components(path).len() - 2] == dir,
        dir != seq!['.'] && dir != seq!['.', '.'],
{
}

/// What settings change of a configuration: its hypervisor, the tracing of its agent and the
/// tracing of its runtime; nothing else of it.
pub proof fn law_what_settings_change_of_a_configuration(
    a: TomlConfig,
    b: TomlConfig,
    s: SettingsView,
    other: Seq<char>,
)
    requires
        crate::annotations::config_set(a, b, s),
    ensures
        ({
            let hv = a.runtime.hypervisor_name@;
            let ag = a.runtime.agent_name@;
            &&& b.hypervisor@.contains_key(hv)
            &&& is_set(a.hypervisor@[hv], b.hypervisor@[hv], s)
            &&& other != hv ==> b.hypervisor@.contains_key(other) == a.hypervisor@.contains_key(
                other,
            ) && b.hypervisor@[other] == a.hypervisor@[other]
            &&& other != ag ==> b.agent@.contains_key(other) == a.agent@.contains_key(other)
                && b.agent@[other] == a.agent@[other]
            &&& s.agent_tracing is Some ==> b.agent@[ag].enable_tracing == s.agent_tracing->0
            &&& s.agent_tracing is None ==> b.agent@[ag].enable_tracing
                == a.agent@[ag].enable_tracing
            &&& s.runtime_tracing is Some ==> b.runtime.enable_tracing == s.runtime_tracing->0
            &&& s.runtime_tracing is None ==> b.runtime.enable_tracing == a.runtime.enable_tracing
            &&& b.runtime.name == a.runtime.name
            &&& b.runtime.hypervisor_name == a.runtime.hypervisor_name
            &&& b.runtime.agent_name == a.runtime.agent_name
        }),
{
}

/// What becomes of a configuration that annotations are to change: an annotation that is not
/// supported, a name that is missing and a setting that cannot be made each leave it as it is
/// and are told, in this order; else the settings are made and the defaults filled in, unless
/// the guest is confidential.
pub proof fn law_what_becomes_of_an_annotated_configuration(
    a: Map<Seq<char>, String>,
    before: TomlConfig,
    after: TomlConfig,
    plugins: crate::hypervisor::HypervisorPlugins,
    enabled: EnabledOptions,
    vcpus: Option<Vcpus>,
    r: Result<(), crate::annotations::AnnotationError>,
    key: Seq<char>,
)
    requires
        crate::annotations::updated(a, before, after, plugins, enabled, vcpus, r),
    ensures
        ({
            let wanted = settings(a, enabled, vcpus, crate::annotations::memory_bytes(a));
            let foreign = a.contains_key(key) && is_unsupported(key);
            &&& foreign ==> after == before && r is Err && r->Err_0@ is Unsupported
            &&& r is Ok ==> name_fault(before) is None && wanted is Ok && !foreign
            &&& r is Err && r->Err_0@ is Unsupported ==> after == before && is_unsupported(
                r->Err_0@->Unsupported_0,
            ) && a.contains_key(r->Err_0@->Unsupported_0)
            &&& r is Err && !(r->Err_0@ is Unsupported) && name_fault(before) is Some ==> after
                == before && r->Err_0@ == name_fault(before)->0
            &&& r is Err && !(r->Err_0@ is Unsupported) && name_fault(before) is None && wanted
                is Err ==> after == before && r->Err_0@ == wanted->Err_0
            &&& r is Err && name_fault(before) is None && wanted is Ok && !(r->Err_0@
                is Unsupported) ==> r->Err_0@ == AnnotationFault::Config(
                HypervisorFault::Confidential,
            )
            &&& r is Ok ==> exists|mid: TomlConfig| #[trigger]
                crate::annotations::config_set(before, mid, wanted->Ok_0) && after.agent
                    == mid.agent && after.runtime == mid.runtime && (plugins.firecracker is Some
                    && mid.hypervisor@.contains_key("firecracker"@) ==> is_adjusted(
                    mid.hypervisor@["firecracker"@],
                    after.hypervisor@["firecracker"@],
                )) && (plugins.firecracker is None ==> after.hypervisor@ == mid.hypervisor@)
        }),
{
    let wanted = settings(a, enabled, vcpus, crate::annotations::memory_bytes(a));
    if crate::annotations::all_supported(a) && name_fault(before) is None && wanted is Ok {
        let mid = choose|mid: TomlConfig| #[trigger]
            crate::annotations::config_set(before, mid, wanted->Ok_0)
                && crate::annotations::after_adjust(mid, after, plugins, r);
        assert(crate::annotations::config_set(before, mid, wanted->Ok_0));
    }
}

/// A size is asked for where the virtual CPUs or the memory are to be set, enabled, and can be
/// read.
pub proof fn law_when_a_size_is_asked_for(
    a: Map<Seq<char>, String>,
    enabled: EnabledOptions,
    vcpus: Option<Vcpus>,
    parsed: Option<u64>,
)
    ensures
        ({
            let m = megabytes(a[memory_key()]@, parsed);
            crate::annotations::asks_for_size(a, enabled, vcpus, parsed) <==> (a.contains_key(
                vcpu_key(),
            ) && enabled.vcpus && vcpus is Some) || (a.contains_key(memory_key())
                && enabled.memory && m is Ok && m->Ok_0 is Some)
        }),
{
}

/// The plugin of a hypervisor is needed for annotations that are all supported and ask a
/// configuration that has its names for a size.
pub proof fn law_when_a_plugin_is_needed(
    a: Map<Seq<char>, String>,
    config: TomlConfig,
    enabled: EnabledOptions,
    vcpus: Option<Vcpus>,
    key: Seq<char>,
)
    ensures
        crate::annotations::needs_plugin(a, config, enabled, vcpus) ==> name_fault(config) is None
            && crate::annotations::asks_for_size(
            a,
            enabled,
            vcpus,
            crate::annotations::memory_bytes(a),
        ) && (a.contains_key(key) ==> !is_unsupported(key)),
        name_fault(config) is None && crate::annotations::asks_for_size(
            a,
            enabled,
            vcpus,
            crate::annotations::memory_bytes(a),
        ) && (forall|k: Seq<char>| #[trigger] a.contains_key(k) ==> !is_unsupported(k))
            ==> crate::annotations::needs_plugin(a, config, enabled, vcpus),
{
}

/// A number without a unit is told apart from other texts by its digits, white space aside.
pub proof fn law_which_amounts_have_no_unit(text: Seq<char>)
    ensures
        crate::annotations::bare_number(text) is Some <==> crate::text::all_digits(
            trimmed(text),
            10,
        ),
        crate::annotations::bare_number(text) is Some ==> crate::annotations::bare_number(text)->0
            == crate::text::digits_value(trimmed(text), 10),
{
}

} // verus!
