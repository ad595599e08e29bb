//! Checking that required Vulkan layers and extensions are available, and
//! deciding whether a physical device suits the application.

use vstd::prelude::*;

verus! {

/// The name of the swapchain device extension, `VK_KHR_swapchain`.
///
/// Trusted: calls `ash::extensions::khr::Swapchain::name`, which ash's source
/// builds from the bytes `b"VK_KHR_swapchain\0"`; the name is ASCII, so the
/// conversion to a `String` cannot fail.
#[verifier::external_body]
fn swapchain_extension_name() -> (name: String)
    ensures
        name@ == seq!['V', 'K', '_', 'K', 'H', 'R', '_', 's', 'w', 'a', 'p', 'c', 'h', 'a', 'i', 'n'],
{
    ash::extensions::khr::Swapchain::name().to_string_lossy().into_owned()
}

/// The text of each name.
pub open spec fn texts(names: Seq<String>) -> Seq<Seq<char>> {
    names.map_values(|n: String| n@)
}

/// The required names that are not among the available ones, in the order
/// they are required.
pub open spec fn missing_spec(required: Seq<Seq<char>>, available: Seq<Seq<char>>) -> Seq<Seq<char>>
    decreases required.len(),
{
    if required.len() == 0 {
        Seq::empty()
    } else {
        let rest = missing_spec(required.drop_last(), available);
        if available.contains(required.last()) {
            rest
        } else {
            rest.push(required.last())
        }
    }
}

/// Whether `name` is among `names`.
fn is_listed(names: &Vec<String>, name: &String) -> (b: bool)
    ensures
        b == texts(names@).contains(name@),
{
    let n = names.len();
    let mut i: usize = 0;
    while i < n
        invariant
            n == names@.len(),
            i <= n,
            forall|j: int| 0 <= j < i ==> names@[j]@ != name@,
        decreases n - i,
    {
        if names[i] == *name {
            assert(texts(names@)[i as int] == name@);
            return true;
        }
        i = i + 1;
    }
    proof {
        if texts(names@).contains(name@) {
            let j = choose|j: int| 0 <= j < texts(names@).len() && texts(names@)[j] == name@;
            assert(names@[j]@ == name@);
        }
    }
    false
}

/// The required names that are not available, in the order they are
/// required.
pub fn missing_names(required: &Vec<String>, available: &Vec<String>) -> (missing: Vec<String>)
    ensures
        texts(missing@) == missing_spec(texts(required@), texts(available@)),
{
    let n = required.len();
    let mut missing: Vec<String> = Vec::new();
    let mut i: usize = 0;
    while i < n
        invariant
            n == required@.len(),
            i <= n,
            texts(missing@) == missing_spec(texts(required@).take(i as int), texts(available@)),
        decreases n - i,
    {
        let listed = is_listed(available, &required[i]);
        proof {
            let r = texts(required@);
            assert(r.take(i + 1).drop_last() =~= r.take(i as int));
            assert(r.take(i + 1).last() == required@[i as int]@);
        }
        if !listed {
            missing.push(required[i].clone());
            assert(texts(missing@) =~= missing_spec(texts(required@).take(i + 1), texts(available@)));
        }
        i = i + 1;
    }
    assert(texts(required@).take(n as int) =~= texts(required@));
    missing
}

/// Err with the missing extensions if any of the required extensions is not
/// supported by the instance.
pub fn check_extensions(available: &Vec<String>, required_extensions: &Vec<String>) -> (r: Result<
    (),
    Vec<String>,
>)
    ensures
        missing_spec(texts(required_extensions@), texts(available@)).len() == 0 <==> r is Ok,
        r matches Err(missing) ==> texts(missing@) == missing_spec(texts(required_extensions@), texts(available@)),
{
    let missing = missing_names(required_extensions, available);
    if missing.len() == 0 {
        Ok(())
    } else {
        Err(missing)
    }
}

/// Err with the missing layers if any of the required layers is not
/// supported by the instance.
pub fn check_layers(available: &Vec<String>, required_layers: &Vec<String>) -> (r: Result<(), Vec<String>>)
    ensures
        missing_spec(texts(required_layers@), texts(available@)).len() == 0 <==> r is Ok,
        r matches Err(missing) ==> texts(missing@) == missing_spec(texts(required_layers@), texts(available@)),
{
    let missing = missing_names(required_layers, available);
    if missing.len() == 0 {
        Ok(())
    } else {
        Err(missing)
    }
}

/// Return the set of required device extensions for this application: the
/// swapchain extension.
pub fn required_device_extensions() -> (names: Vec<String>)
    ensures
        texts(names@) == seq![
            seq!['V', 'K', '_', 'K', 'H', 'R', '_', 's', 'w', 'a', 'p', 'c', 'h', 'a', 'i', 'n'],
        ],
{
    let mut names: Vec<String> = Vec::new();
    names.push(swapchain_extension_name());
    assert(texts(names@) =~= seq![
        seq!['V', 'K', '_', 'K', 'H', 'R', '_', 's', 'w', 'a', 'p', 'c', 'h', 'a', 'i', 'n'],
    ]);
    names
}

/// Whether a device offers every required device extension.
pub fn check_required_extensions(device_extensions: &Vec<String>) -> (b: bool)
    ensures
        b == (missing_spec(
            seq![seq!['V', 'K', '_', 'K', 'H', 'R', '_', 's', 'w', 'a', 'p', 'c', 'h', 'a', 'i', 'n']],
            texts(device_extensions@),
        ).len() == 0),
{
    let required = required_device_extensions();
    missing_names(&required, device_extensions).len() == 0
}

/// Return true when the device is suitable for this application: it has the
/// queue families needed, supports the required extensions, offers at least
/// one surface format and presentation mode, and supports geometry shaders.
pub fn is_device_suitable(
    queues_supported: bool,
    extensions_supported: bool,
    format_count: usize,
    presentation_mode_count: usize,
    geometry_shader: bool,
) -> (b: bool)
    ensures
        b == (queues_supported && extensions_supported && format_count > 0 && presentation_mode_count > 0
            && geometry_shader),
{
    queues_supported && extensions_supported && format_count > 0 && presentation_mode_count > 0 && geometry_shader
}

/// Pick the first suitable device, given each device's suitability.
pub fn pick_physical_device(suitable: &Vec<bool>) -> (r: Option<usize>)
    ensures
        r is None ==> forall|i: int| 0 <= i < suitable.len() ==> !suitable@[i],
        r matches Some(i) ==> i < suitable.len() && suitable@[i as int] && forall|j: int|
            0 <= j < i ==> !suitable@[j],
{
    let n = suitable.len();
    let mut i: usize = 0;
    while i < n
        invariant
            n == suitable@.len(),
            i <= n,
            forall|j: int| 0 <= j < i ==> !suitable@[j],
        decreases n - i,
    {
        if suitable[i] {
            return Some(i);
        }
        i = i + 1;
    }
    None
}

} // verus!
