//! The byte and argument protocol between a dispatcher, the backends and the
//! kernel program: what becomes of the caller's arguments, how a computed
//! result is read back, and how the kernel finds its files on its command
//! line.
use vstd::prelude::*;

verus! {

/// Copies a byte buffer.
fn copy_bytes(b: &Vec<u8>) -> (r: Vec<u8>)
    ensures
        r@ == b@,
{
    let mut r: Vec<u8> = Vec::with_capacity(b.len());
    let mut i: usize = 0;
    while i < b.len()
        invariant
            i <= b@.len(),
            r@ == b@.take(i as int),
        decreases b@.len() - i,
    {
        r.push(b[i]);
        i = i + 1;
        assert(r@ =~= b@.take(i as int));
    }
    assert(b@.take(i as int) =~= b@);
    r
}

/// The subtask inputs of a distributed task: one per argument, in
/// declaration order, each the argument's bytes unchanged.
pub fn task_subtasks(args: &Vec<Vec<u8>>) -> (r: Vec<Vec<u8>>)
    ensures
        r@.len() == args@.len(),
        forall|i: int| 0 <= i < args@.len() ==> (#[trigger] r@[i])@ == args@[i]@,
{
    let mut r: Vec<Vec<u8>> = Vec::new();
    let mut i: usize = 0;
    while i < args.len()
        invariant
            i <= args@.len(),
            r@.len() == i,
            forall|j: int| 0 <= j < i ==> (#[trigger] r@[j])@ == args@[j]@,
        decreases args@.len() - i,
    {
        r.push(copy_bytes(&args[i]));
        i = i + 1;
    }
    r
}

/// The one input file of a local sandbox run: the first argument's bytes.
/// Further arguments do not reach the sandbox.
pub fn local_sandbox_input(args: &Vec<Vec<u8>>) -> (r: Vec<u8>)
    requires
        args@.len() >= 1,
    ensures
        r@ == args@[0]@,
{
    copy_bytes(&args[0])
}

/// The bytes of a list of streams, one after the other.
pub open spec fn concat_streams(streams: Seq<Vec<u8>>) -> Seq<u8>
    decreases streams.len(),
{
    if streams.len() == 0 {
        Seq::empty()
    } else {
        concat_streams(streams.drop_last()) + streams.last()@
    }
}

/// The output of a computed task: subtask by subtask, stream by stream.
pub open spec fn concat_subtasks(subtasks: Seq<Vec<Vec<u8>>>) -> Seq<u8>
    decreases subtasks.len(),
{
    if subtasks.len() == 0 {
        Seq::empty()
    } else {
        concat_subtasks(subtasks.drop_last()) + concat_streams(subtasks.last()@)
    }
}

/// Reads a computed task back: every data stream of every subtask,
/// concatenated in subtask order, then stream order.
pub fn reassemble(subtasks: &Vec<Vec<Vec<u8>>>) -> (r: Vec<u8>)
    ensures
        r@ == concat_subtasks(subtasks@),
{
    let mut out: Vec<u8> = Vec::new();
    let mut i: usize = 0;
    while i < subtasks.len()
        invariant
            i <= subtasks@.len(),
            out@ == concat_subtasks(subtasks@.take(i as int)),
        decreases subtasks@.len() - i,
    {
        let streams = &subtasks[i];
        let ghost before = out@;
        let mut k: usize = 0;
        while k < streams.len()
            invariant
                k <= streams@.len(),
                out@ == before + concat_streams(streams@.take(k as int)),
            decreases streams@.len() - k,
        {
            let data = &streams[k];
            let ghost mid = out@;
            let mut b: usize = 0;
            while b < data.len()
                invariant
                    b <= data@.len(),
                    out@ == mid + data@.take(b as int),
                decreases data@.len() - b,
            {
                out.push(data[b]);
                b = b + 1;
                assert(out@ =~= mid + data@.take(b as int));
            }
            assert(data@.take(b as int) =~= data@);
            assert(streams@.take(k + 1).drop_last() =~= streams@.take(k as int));
            k = k + 1;
            assert(out@ =~= before + concat_streams(streams@.take(k as int)));
        }
        assert(streams@.take(k as int) =~= streams@);
        assert(subtasks@.take(i + 1).drop_last() =~= subtasks@.take(i as int));
        i = i + 1;
    }
    assert(subtasks@.take(i as int) =~= subtasks@);
    out
}

/// The file paths a kernel program reads: its output path and one input
/// path per parameter, in parameter order.
#[derive(Debug, PartialEq, Eq)]
pub struct KernelArgs {
    pub output: String,
    pub inputs: Vec<String>,
}

/// What a kernel of `n` parameters makes of its argument list: the last
/// argument is the output path; the `n` before it are the inputs, popped
/// from the end, so the first parameter takes the last one popped.
/// `None` when fewer than `n + 1` arguments are given.
pub open spec fn kernel_args_of(argv: Seq<String>, n: nat) -> Option<(String, Seq<String>)> {
    if argv.len() < n + 1 {
        None
    } else {
        Some((argv.last(), argv.subrange(argv.len() - 1 - n, argv.len() - 1)))
    }
}

/// Reconstructs a kernel's file paths by popping its argument list from
/// the end: first the output path, then one input per parameter, last
/// parameter first.
pub fn kernel_reconstruct(argv: Vec<String>, n: usize) -> (r: Option<KernelArgs>)
    ensures
        match (r, kernel_args_of(argv@, n as nat)) {
            (None, None) => true,
            (Some(k), Some((out, ins))) => k.output == out && k.inputs@ == ins,
            _ => false,
        },
{
    let ghost orig = argv@;
    let mut args = argv;
    if args.len() < 1 || args.len() - 1 < n {
        return None;
    }
    let output = args.pop().unwrap();
    let mut popped: Vec<String> = Vec::new();
    let mut k: usize = 0;
    while k < n
        invariant
            orig == argv@,
            orig.len() >= n + 1,
            k <= n,
            popped@.len() == k,
            args@ == orig.take(orig.len() - 1 - k),
            forall|j: int| 0 <= j < k ==> #[trigger] popped@[j] == orig[orig.len() - 2 - j],
        decreases n - k,
    {
        let next = args.pop().unwrap();
        popped.push(next);
        k = k + 1;
        assert(args@ =~= orig.take(orig.len() - 1 - k));
    }
    let mut inputs: Vec<String> = Vec::new();
    while popped.len() > 0
        invariant
            orig == argv@,
            orig.len() >= n + 1,
            popped@.len() + inputs@.len() == n,
            forall|j: int| 0 <= j < popped@.len() ==> #[trigger] popped@[j] == orig[orig.len() - 2 - j],
            forall|j: int|
                0 <= j < inputs@.len() ==> #[trigger] inputs@[j] == orig[orig.len() - 1 - n + j],
        decreases popped@.len(),
    {
        let next = popped.pop().unwrap();
        inputs.push(next);
    }
    let ghost ins = orig.subrange(orig.len() - 1 - n, orig.len() - 1);
    assert(inputs@ =~= ins);
    Some(KernelArgs { output, inputs })
}

/// The command line a kernel is called with for the given input paths,
/// in parameter order, and output path: the inputs in order, then the
/// output.
pub fn kernel_command_line(program: String, inputs: &Vec<String>, output: String) -> (r: Vec<String>)
    ensures
        r@ == seq![program] + inputs@ + seq![output],
{
    let mut r: Vec<String> = Vec::new();
    r.push(program);
    let mut i: usize = 0;
    while i < inputs.len()
        invariant
            i <= inputs@.len(),
            r@ == seq![program] + inputs@.take(i as int),
        decreases inputs@.len() - i,
    {
        r.push(inputs[i].clone());
        i = i + 1;
        assert(r@ =~= seq![program] + inputs@.take(i as int));
    }
    assert(inputs@.take(i as int) =~= inputs@);
    r.push(output);
    r
}

/// A kernel called with the command line built for some inputs and an
/// output recovers exactly that output path and those inputs, in
/// parameter order: the first parameter reads the first input given.
pub proof fn lemma_kernel_round_trip(prefix: Seq<String>, inputs: Seq<String>, output: String)
    ensures
        kernel_args_of(prefix + inputs + seq![output], inputs.len()) == Some((output, inputs)),
{
    let argv = prefix + inputs + seq![output];
    assert(argv.subrange(argv.len() - 1 - inputs.len(), argv.len() - 1) =~= inputs);
}

/// Reassembly is compositional: the output of two groups of subtasks is
/// the output of the first followed by the output of the second.
pub proof fn lemma_reassembly_appends(a: Seq<Vec<Vec<u8>>>, b: Seq<Vec<Vec<u8>>>)
    ensures
        concat_subtasks(a + b) == concat_subtasks(a) + concat_subtasks(b),
    decreases b.len(),
{
    if b.len() == 0 {
        assert(a + b =~= a);
        assert(concat_subtasks(a) + Seq::<u8>::empty() =~= concat_subtasks(a));
    } else {
        assert((a + b).drop_last() =~= a + b.drop_last());
        lemma_reassembly_appends(a, b.drop_last());
        assert(concat_subtasks(a) + concat_subtasks(b.drop_last()) + concat_streams(b.last()@)
            =~= concat_subtasks(a) + (concat_subtasks(b.drop_last()) + concat_streams(b.last()@)));
    }
}

} // verus!
