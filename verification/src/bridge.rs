//! Getting a captured buffer to where the encoder can read it: through Vulkan,
//! or straight into CUDA. Every step acquires something, and a step that fails
//! gives back what those before it acquired.

use vstd::prelude::*;

use crate::numbers::{push_decimal, push_signed, decimal, signed_decimal};
use crate::text::{contains_text, lemma_cat, lemma_contains};

verus! {

/// A step of copying a captured buffer through Vulkan.
#[derive(Clone, Copy, Debug, PartialEq, Eq, Structural)]
pub enum ImportStage {
    CreateImage,
    ImportMemory,
    BindImage,
    CreateBuffer,
    AllocateBuffer,
    BindBuffer,
    Copy,
    Export,
}

/// Something that a step acquires.
#[derive(Clone, Copy, Debug, PartialEq, Eq, Structural)]
pub enum Resource {
    SrcImage,
    SrcMemory,
    DstBuffer,
    DstMemory,
}

/// The steps, in their order.
pub open spec fn stages() -> Seq<ImportStage> {
    seq![
        ImportStage::CreateImage,
        ImportStage::ImportMemory,
        ImportStage::BindImage,
        ImportStage::CreateBuffer,
        ImportStage::AllocateBuffer,
        ImportStage::BindBuffer,
        ImportStage::Copy,
        ImportStage::Export,
    ]
}

/// What a step acquires when it works.
pub open spec fn acquires(stage: ImportStage) -> Option<Resource> {
    match stage {
        ImportStage::CreateImage => Some(Resource::SrcImage),
        ImportStage::ImportMemory => Some(Resource::SrcMemory),
        ImportStage::CreateBuffer => Some(Resource::DstBuffer),
        ImportStage::AllocateBuffer => Some(Resource::DstMemory),
        _ => None,
    }
}

/// What is held once the first `n` steps have worked, in the order in which it
/// was acquired.
pub open spec fn held_after(n: int) -> Seq<Resource>
    decreases n,
{
    if n <= 0 {
        seq![]
    } else {
        match acquires(stages()[n - 1]) {
            Some(r) => held_after(n - 1).push(r),
            None => held_after(n - 1),
        }
    }
}

/// The number of a step.
pub open spec fn number(stage: ImportStage) -> int {
    match stage {
        ImportStage::CreateImage => 0,
        ImportStage::ImportMemory => 1,
        ImportStage::BindImage => 2,
        ImportStage::CreateBuffer => 3,
        ImportStage::AllocateBuffer => 4,
        ImportStage::BindBuffer => 5,
        ImportStage::Copy => 6,
        ImportStage::Export => 7,
    }
}

impl ImportStage {
    pub fn first() -> (s: ImportStage)
        ensures
            s == stages()[0],
    {
        ImportStage::CreateImage
    }

    /// The step after one that has worked; none once all have.
    pub fn next(self) -> (s: Option<ImportStage>)
        ensures
            s == if number(self) == 7 {
                None
            } else {
                Some(stages()[number(self) + 1])
            },
    {
        match self {
            ImportStage::CreateImage => Some(ImportStage::ImportMemory),
            ImportStage::ImportMemory => Some(ImportStage::BindImage),
            ImportStage::BindImage => Some(ImportStage::CreateBuffer),
            ImportStage::CreateBuffer => Some(ImportStage::AllocateBuffer),
            ImportStage::AllocateBuffer => Some(ImportStage::BindBuffer),
            ImportStage::BindBuffer => Some(ImportStage::Copy),
            ImportStage::Copy => Some(ImportStage::Export),
            ImportStage::Export => None,
        }
    }
}

/// What is done about a step that failed.
pub struct ImportFailure {
    /// Whether the frame's descriptor has to be closed: it was on its way into
    /// the memory, which would have owned it.
    pub close_fd: bool,
    /// What is given back, in this order.
    pub release: Vec<Resource>,
    pub message: String,
}

/// What is reported of a step that failed.
pub open spec fn import_message(stage: ImportStage, fd: i32, error: Seq<char>) -> Seq<char> {
    match stage {
        ImportStage::CreateImage => "vkCreateImage (src, DRM_FORMAT_MODIFIER_EXT): "@ + error,
        ImportStage::ImportMemory => "vkAllocateMemory (import dma-buf fd "@ + signed_decimal(
            fd as int,
        ) + "): "@ + error,
        ImportStage::BindImage => "vkBindImageMemory2 (src): "@ + error,
        ImportStage::CreateBuffer => "vkCreateBuffer (dst): "@ + error,
        ImportStage::AllocateBuffer => "vkAllocateMemory (dst): "@ + error,
        ImportStage::BindBuffer => "vkBindBufferMemory2 (dst): "@ + error,
        ImportStage::Copy => error,
        ImportStage::Export => "vkGetMemoryFdKHR: "@ + error,
    }
}

/// What is done about a step that failed: everything that was acquired before it
/// is given back, the last first.
pub fn import_persistent_failed(stage: ImportStage, fd: i32, error: &str) -> (f: ImportFailure)
    ensures
        f.close_fd == (stage == ImportStage::ImportMemory),
        f.release@ == held_after(number(stage)).reverse(),
        f.message@ == import_message(stage, fd, error@),
{
    proof {
        reveal_with_fuel(held_after, 9);
    }
    let mut release: Vec<Resource> = Vec::new();
    let late = match stage {
        ImportStage::BindBuffer => true,
        ImportStage::Copy => true,
        ImportStage::Export => true,
        _ => false,
    };
    let allocating = match stage {
        ImportStage::AllocateBuffer => true,
        _ => false,
    };
    if late {
        release.push(Resource::DstMemory);
    }
    if late || allocating {
        release.push(Resource::DstBuffer);
    }
    match stage {
        ImportStage::CreateImage => {},
        ImportStage::ImportMemory => {
            release.push(Resource::SrcImage);
        },
        _ => {
            release.push(Resource::SrcMemory);
            release.push(Resource::SrcImage);
        },
    }
    assert(release@ =~= held_after(number(stage)).reverse());
    let message = match stage {
        ImportStage::CreateImage => {
            let mut m = "vkCreateImage (src, DRM_FORMAT_MODIFIER_EXT): ".to_string();
            m.append(error);
            m
        },
        ImportStage::ImportMemory => {
            let mut m = "vkAllocateMemory (import dma-buf fd ".to_string();
            push_signed(&mut m, fd as i64);
            m.append("): ");
            m.append(error);
            m
        },
        ImportStage::BindImage => {
            let mut m = "vkBindImageMemory2 (src): ".to_string();
            m.append(error);
            m
        },
        ImportStage::CreateBuffer => {
            let mut m = "vkCreateBuffer (dst): ".to_string();
            m.append(error);
            m
        },
        ImportStage::AllocateBuffer => {
            let mut m = "vkAllocateMemory (dst): ".to_string();
            m.append(error);
            m
        },
        ImportStage::BindBuffer => {
            let mut m = "vkBindBufferMemory2 (dst): ".to_string();
            m.append(error);
            m
        },
        ImportStage::Copy => error.to_string(),
        ImportStage::Export => {
            let mut m = "vkGetMemoryFdKHR: ".to_string();
            m.append(error);
            m
        },
    };
    let close_fd = match stage {
        ImportStage::ImportMemory => true,
        _ => false,
    };
    ImportFailure { close_fd, release, message }
}

/// No step gives back what was not acquired, or gives anything back twice.
pub proof fn law_resources_are_released_once(stage: ImportStage)
    ensures
        held_after(number(stage)).reverse().no_duplicates(),
        forall|r: Resource|
            held_after(number(stage)).reverse().contains(r) ==> exists|i: int|
                0 <= i < number(stage) && acquires(#[trigger] stages()[i]) == Some(r),
{
    reveal_with_fuel(held_after, 9);
    let held = held_after(number(stage));
    assert forall|r: Resource| held.reverse().contains(r) implies exists|i: int|
        0 <= i < number(stage) && acquires(#[trigger] stages()[i]) == Some(r) by {
        let k = choose|k: int| 0 <= k < held.reverse().len() && held.reverse()[k] == r;
        assert(held[held.len() - 1 - k] == r);
        let at = match r {
            Resource::SrcImage => 0,
            Resource::SrcMemory => 1,
            Resource::DstBuffer => 3,
            Resource::DstMemory => 4int,
        };
        assert(acquires(stages()[at]) == Some(r));
    }
}

/// What a queue family can do.
#[derive(Clone, Copy, Debug)]
pub struct QueueFamily {
    pub graphics: bool,
    pub transfer: bool,
}

/// Whether `i` is the first family that can draw and copy.
pub open spec fn first_to_draw(families: Seq<QueueFamily>, i: int) -> bool {
    &&& 0 <= i < families.len()
    &&& families[i].graphics && families[i].transfer
    &&& forall|j: int|
        0 <= j < i ==> !((#[trigger] families[j]).graphics && families[j].transfer)
}

/// Whether `i` is the first family that can copy.
pub open spec fn first_to_copy(families: Seq<QueueFamily>, i: int) -> bool {
    &&& 0 <= i < families.len()
    &&& families[i].transfer
    &&& forall|j: int| 0 <= j < i ==> !(#[trigger] families[j]).transfer
}

/// The queue family to copy with: the first that can also draw, or else the
/// first that can copy at all.
pub fn select_queue_family(families: &Vec<QueueFamily>) -> (r: Result<usize, String>)
    ensures
        match r {
            Ok(i) => if exists|j: int| first_to_draw(families@, j) {
                first_to_draw(families@, i as int)
            } else {
                first_to_copy(families@, i as int)
            },
            Err(m) => {
                &&& m@ == "no queue family supports GRAPHICS or TRANSFER"@
                &&& forall|j: int| 0 <= j < families@.len() ==> !(#[trigger] families@[j]).transfer
            },
        },
{
    let mut i: usize = 0;
    while i < families.len()
        invariant
            i <= families@.len(),
            forall|j: int|
                0 <= j < i ==> !((#[trigger] families@[j]).graphics && families@[j].transfer),
        decreases families@.len() - i,
    {
        if families[i].graphics && families[i].transfer {
            assert(first_to_draw(families@, i as int));
            return Ok(i);
        }
        i += 1;
    }
    let mut k: usize = 0;
    while k < families.len()
        invariant
            !exists|j: int| first_to_draw(families@, j),
            k <= families@.len(),
            forall|j: int| 0 <= j < k ==> !(#[trigger] families@[j]).transfer,
        decreases families@.len() - k,
    {
        if families[k].transfer {
            return Ok(k);
        }
        k += 1;
    }
    Err("no queue family supports GRAPHICS or TRANSFER".to_string())
}

/// What is reported when the machine has no such device.
pub fn no_such_device(index: u32) -> (message: String)
    ensures
        message@ == "no VkPhysicalDevice at index "@ + decimal(index as nat),
{
    let mut message = "no VkPhysicalDevice at index ".to_string();
    push_decimal(&mut message, index as u64);
    message
}

/// Whether a memory type is among those that a mask allows.
pub open spec fn allows(type_bits: u32, i: int) -> bool {
    type_bits & (1u32 << (i as u32)) != 0
}

/// The memory type to use: the first that is allowed and has the wanted
/// properties, or else the first that is allowed. `has_props` says of each type
/// whether it has them.
pub fn find_memory_type_index(type_bits: u32, has_props: &Vec<bool>) -> (r: Option<u32>)
    requires
        has_props@.len() <= 32,
    ensures
        match r {
            None => forall|j: int| 0 <= j < has_props@.len() ==> !#[trigger] allows(type_bits, j),
            Some(i) => {
                &&& i < has_props@.len()
                &&& allows(type_bits, i as int)
                &&& if has_props@[i as int] {
                    forall|j: int|
                        0 <= j < i ==> !(#[trigger] allows(type_bits, j) && has_props@[j])
                } else {
                    &&& forall|j: int|
                        0 <= j < has_props@.len() ==> !(#[trigger] allows(type_bits, j)
                            && has_props@[j])
                    &&& forall|j: int| 0 <= j < i ==> !#[trigger] allows(type_bits, j)
                }
            },
        },
{
    let n: u32 = has_props.len() as u32;
    let mut i: u32 = 0;
    while i < n
        invariant
            n == has_props@.len(),
            n <= 32,
            i <= n,
            forall|j: int| 0 <= j < i ==> !(#[trigger] allows(type_bits, j) && has_props@[j]),
        decreases n - i,
    {
        if type_bits & (1u32 << i) != 0 && has_props[i as usize] {
            assert(allows(type_bits, i as int));
            return Some(i);
        }
        assert(!(allows(type_bits, i as int) && has_props@[i as int]));
        i += 1;
    }
    let mut k: u32 = 0;
    while k < n
        invariant
            n == has_props@.len(),
            n <= 32,
            k <= n,
            forall|j: int|
                0 <= j < has_props@.len() ==> !(#[trigger] allows(type_bits, j) && has_props@[j]),
            forall|j: int| 0 <= j < k ==> !#[trigger] allows(type_bits, j),
        decreases n - k,
    {
        if type_bits & (1u32 << k) != 0 {
            assert(allows(type_bits, k as int));
            return Some(k);
        }
        assert(!allows(type_bits, k as int));
        k += 1;
    }
    None
}

/// A step of mapping a captured buffer into CUDA as an array.
#[derive(Clone, Copy, Debug, PartialEq, Eq, Structural)]
pub enum ArrayStage {
    ImportMemory,
    MapArray,
    GetLevel,
}

/// What is given back when a step of it fails.
#[derive(Clone, Copy, Debug, PartialEq, Eq, Structural)]
pub enum ArrayCleanup {
    /// The frame's descriptor, which CUDA has not taken.
    CloseFd,
    /// The imported memory, which owns the descriptor.
    DestroyMemory,
}

/// What is given back when a step fails: the descriptor until the memory owns
/// it, and the memory from then on.
pub fn import_array_failed(stage: ArrayStage) -> (c: ArrayCleanup)
    ensures
        c == if stage == ArrayStage::ImportMemory {
            ArrayCleanup::CloseFd
        } else {
            ArrayCleanup::DestroyMemory
        },
{
    match stage {
        ArrayStage::ImportMemory => ArrayCleanup::CloseFd,
        _ => ArrayCleanup::DestroyMemory,
    }
}

/// Each step is at its own number.
pub proof fn law_steps_are_numbered_in_order(i: int, stage: ImportStage)
    requires
        0 <= i < stages().len(),
    ensures
        stages().len() == 8,
        number(stages()[i]) == i,
        stages()[number(stage)] == stage,
{
}

/// The image is given back wherever it was made, its memory wherever that was
/// imported, the buffer wherever it was made, and its memory wherever that was
/// allocated; each memory before what it is bound to, and the buffer before the
/// image.
pub proof fn law_all_that_was_acquired_is_given_back(stage: ImportStage)
    ensures
        ({
            let back = held_after(number(stage)).reverse();
            let image = !(stage is CreateImage);
            let memory = image && !(stage is ImportMemory);
            let buffer = memory && !(stage is BindImage) && !(stage is CreateBuffer);
            let buffer_memory = buffer && !(stage is AllocateBuffer);
            &&& back == if buffer_memory {
                seq![
                    Resource::DstMemory,
                    Resource::DstBuffer,
                    Resource::SrcMemory,
                    Resource::SrcImage,
                ]
            } else if buffer {
                seq![Resource::DstBuffer, Resource::SrcMemory, Resource::SrcImage]
            } else if memory {
                seq![Resource::SrcMemory, Resource::SrcImage]
            } else if image {
                seq![Resource::SrcImage]
            } else {
                seq![]
            }
        }),
{
    reveal_with_fuel(held_after, 9);
    let held = held_after(number(stage));
    assert(held.reverse() =~= match stage {
        ImportStage::CreateImage => seq![],
        ImportStage::ImportMemory => seq![Resource::SrcImage],
        ImportStage::BindImage => seq![Resource::SrcMemory, Resource::SrcImage],
        ImportStage::CreateBuffer => seq![Resource::SrcMemory, Resource::SrcImage],
        ImportStage::AllocateBuffer => seq![
            Resource::DstBuffer,
            Resource::SrcMemory,
            Resource::SrcImage,
        ],
        _ => seq![
            Resource::DstMemory,
            Resource::DstBuffer,
            Resource::SrcMemory,
            Resource::SrcImage,
        ],
    });
}

/// What is reported of a step ends with why it failed; and where it is the import of
/// a descriptor, the descriptor is named before that.
pub proof fn law_failed_steps_say_why(stage: ImportStage, fd: i32, error: Seq<char>)
    ensures
        ({
            let m = import_message(stage, fd, error);
            &&& error.len() <= m.len() && m.skip(m.len() - error.len()) == error
            &&& stage is ImportMemory ==> contains_text(
                m,
                " fd "@ + signed_decimal(fd as int) + ")"@,
            )
        }),
{
    let m = import_message(stage, fd, error);
    assert(m.skip(m.len() - error.len()) =~= error);
    if stage is ImportMemory {
        let front = "vkAllocateMemory (import dma-buf"@;
        assert("vkAllocateMemory (import dma-buf fd "@ == front + " fd "@) by {
            reveal_strlit("vkAllocateMemory (import dma-buf fd ");
            reveal_strlit("vkAllocateMemory (import dma-buf");
            reveal_strlit(" fd ");
        }
        assert("): "@ == ")"@ + ": "@) by {
            reveal_strlit("): ");
            reveal_strlit(")");
            reveal_strlit(": ");
        }
        let part = " fd "@ + signed_decimal(fd as int) + ")"@;
        assert(m == front + (part + (": "@ + error))) by {
            broadcast use lemma_cat;

        }
        lemma_contains(m, front, part, ": "@ + error);
    }
}

/// A family that is chosen can copy, and can draw too wherever any family can do
/// both; and none before it would have done.
pub proof fn law_the_chosen_family_can_copy(families: Seq<QueueFamily>, i: int, j: int)
    requires
        0 <= j < families.len(),
    ensures
        first_to_draw(families, i) ==> 0 <= i < families.len() && families[i].graphics
            && families[i].transfer && (families[j].graphics && families[j].transfer ==> i <= j),
        first_to_copy(families, i) ==> 0 <= i < families.len() && families[i].transfer && (
        families[j].transfer ==> i <= j),
{
}

/// A mask allows the memory types whose bits are set in it.
pub proof fn law_masks_allow_what_their_bits_say(type_bits: u32, i: u32)
    requires
        i < 32,
    ensures
        allows(type_bits, i as int) <==> (type_bits >> i) % 2 == 1,
        allows(u32::MAX, i as int),
        !allows(0, i as int),
{
    assert(type_bits & (1u32 << i) != 0 <==> (type_bits >> i) % 2 == 1) by (bit_vector)
        requires
            i < 32,
    ;
    assert(0xffff_ffffu32 & (1u32 << i) != 0) by (bit_vector)
        requires
            i < 32,
    ;
    assert(0u32 & (1u32 << i) == 0) by (bit_vector);
}

} // verus!
