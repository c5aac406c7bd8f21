//! The coin-arrangement solver: enqueue, for every ordering of the five
//! coins, the commands that place them in the slots and pick them back up,
//! so the hosted program can try each arrangement in turn.

use vstd::prelude::*;
use itertools::Itertools;
use crate::state::State;
use crate::vm::VM;

verus! {

/// The orderings the permutation adaptor yields for a sequence of items:
/// a pure function of the items alone.
pub uninterp spec fn perm_orders(items: Seq<u8>) -> Seq<Seq<u8>>;

/// The factorial of `n`.
pub open spec fn spec_fact(n: nat) -> nat
    decreases n,
{
    if n == 0 {
        1
    } else {
        n * spec_fact((n - 1) as nat)
    }
}

/// Relies on itertools' `permutations` adaptor: with `k` equal to the item
/// count it yields every ordering of the items exactly once — one vector
/// of the full length per ordering, each drawing its elements from the
/// items — and its order of iteration depends on the items alone.
#[verifier::external_body]
fn permutations_of(items: &Vec<u8>) -> (r: Vec<Vec<u8>>)
    ensures
        r.deep_view() == perm_orders(items@),
        r@.len() == spec_fact(items@.len()),
        forall|i: int| 0 <= i < r@.len() ==> r@[i]@.len() == items@.len(),
        forall|i: int, j: int| 0 <= i < r@.len() && 0 <= j < r@[i]@.len()
            ==> items@.contains(r@[i]@[j]),
{
    items.iter().cloned().permutations(items.len()).collect()
}

/// The identifiers of the five coins, in the order the solver permutes.
pub open spec fn coin_ids() -> Seq<u8> {
    seq![0u8, 1u8, 2u8, 3u8, 4u8]
}

/// The name of a coin; identifiers past the five coins name nothing.
pub open spec fn coin_name(id: u8) -> Seq<u8> {
    if id == 0 {
        seq!['r' as u8, 'e' as u8, 'd' as u8, ' ' as u8, 'c' as u8, 'o' as u8, 'i' as u8,
            'n' as u8]
    } else if id == 1 {
        seq!['b' as u8, 'l' as u8, 'u' as u8, 'e' as u8, ' ' as u8, 'c' as u8, 'o' as u8,
            'i' as u8, 'n' as u8]
    } else if id == 2 {
        seq!['s' as u8, 'h' as u8, 'i' as u8, 'n' as u8, 'y' as u8, ' ' as u8, 'c' as u8,
            'o' as u8, 'i' as u8, 'n' as u8]
    } else if id == 3 {
        seq!['c' as u8, 'o' as u8, 'n' as u8, 'c' as u8, 'a' as u8, 'v' as u8, 'e' as u8,
            ' ' as u8, 'c' as u8, 'o' as u8, 'i' as u8, 'n' as u8]
    } else if id == 4 {
        seq!['c' as u8, 'o' as u8, 'r' as u8, 'r' as u8, 'o' as u8, 'd' as u8, 'e' as u8,
            'd' as u8, ' ' as u8, 'c' as u8, 'o' as u8, 'i' as u8, 'n' as u8]
    } else {
        Seq::<u8>::empty()
    }
}

/// The command line that places one coin: `use `, the coin's name, and a
/// newline.
pub open spec fn use_cmd(id: u8) -> Seq<u8> {
    seq!['u' as u8, 's' as u8, 'e' as u8, ' ' as u8] + coin_name(id) + seq!['\n' as u8]
}

/// The command line that takes one coin back: `take `, the coin's name,
/// and a newline.
pub open spec fn take_cmd(id: u8) -> Seq<u8> {
    seq!['t' as u8, 'a' as u8, 'k' as u8, 'e' as u8, ' ' as u8] + coin_name(id) + seq![
        '\n' as u8]
}

/// The placement commands of one ordering, in order.
pub open spec fn use_block(order: Seq<u8>) -> Seq<u8>
    decreases order.len(),
{
    if order.len() == 0 {
        Seq::<u8>::empty()
    } else {
        use_cmd(order[0]) + use_block(order.skip(1))
    }
}

/// The five pick-up commands, one per coin in identifier order.
pub open spec fn take_block() -> Seq<u8> {
    take_cmd(0) + take_cmd(1) + take_cmd(2) + take_cmd(3) + take_cmd(4)
}

/// The whole command script for a list of orderings: for each ordering its
/// placement commands, then the pick-up commands.
pub open spec fn coin_script(orders: Seq<Seq<u8>>) -> Seq<u8>
    decreases orders.len(),
{
    if orders.len() == 0 {
        Seq::<u8>::empty()
    } else {
        use_block(orders[0]) + take_block() + coin_script(orders.skip(1))
    }
}

/// Appending one ordering to a script appends its block.
proof fn lemma_coin_script_push(os: Seq<Seq<u8>>, o: Seq<u8>)
    ensures
        coin_script(os.push(o)) == coin_script(os) + use_block(o) + take_block(),
    decreases os.len(),
{
    reveal_with_fuel(coin_script, 3);
    if os.len() == 0 {
        assert(os.push(o)[0] == o);
        assert(os.push(o).skip(1) =~= Seq::<Seq<u8>>::empty());
        assert(coin_script(os.push(o)) =~= coin_script(os) + use_block(o) + take_block());
    } else {
        assert(os.push(o)[0] == os[0]);
        assert(os.push(o).skip(1) =~= os.skip(1).push(o));
        lemma_coin_script_push(os.skip(1), o);
        assert(coin_script(os.push(o)) =~= coin_script(os) + use_block(o) + take_block());
    }
}

/// A five-element ordering's placement commands, written out.
proof fn lemma_use_block5(s: Seq<u8>)
    requires
        s.len() == 5,
    ensures
        use_block(s) == use_cmd(s[0]) + use_cmd(s[1]) + use_cmd(s[2]) + use_cmd(s[3])
            + use_cmd(s[4]),
{
    reveal_with_fuel(use_block, 7);
    let s1 = s.skip(1);
    let s2 = s1.skip(1);
    let s3 = s2.skip(1);
    let s4 = s3.skip(1);
    assert(s1[0] == s[1] && s2[0] == s[2] && s3[0] == s[3] && s4[0] == s[4]);
    assert(s4.skip(1) =~= Seq::<u8>::empty());
    assert(use_block(s) =~= use_cmd(s[0]) + use_cmd(s[1]) + use_cmd(s[2]) + use_cmd(s[3])
        + use_cmd(s[4]));
}

/// Append the placement command of one coin to the machine's input.
fn push_use(vm: &mut VM, id: u8)
    ensures
        final(vm)@ == (State { inputs: old(vm)@.inputs + use_cmd(id), ..old(vm)@ }),
{
    let mut cmd: Vec<u8> = Vec::new();
    cmd.push('u' as u8);
    cmd.push('s' as u8);
    cmd.push('e' as u8);
    cmd.push(' ' as u8);
    push_coin_name(&mut cmd, id);
    cmd.push('\n' as u8);
    proof {
        assert(cmd@ =~= use_cmd(id));
    }
    vm.push_input_bytes(&cmd);
}

/// Append the pick-up command of one coin to the machine's input.
fn push_take(vm: &mut VM, id: u8)
    ensures
        final(vm)@ == (State { inputs: old(vm)@.inputs + take_cmd(id), ..old(vm)@ }),
{
    let mut cmd: Vec<u8> = Vec::new();
    cmd.push('t' as u8);
    cmd.push('a' as u8);
    cmd.push('k' as u8);
    cmd.push('e' as u8);
    cmd.push(' ' as u8);
    push_coin_name(&mut cmd, id);
    cmd.push('\n' as u8);
    proof {
        assert(cmd@ =~= take_cmd(id));
    }
    vm.push_input_bytes(&cmd);
}

/// Append a coin's name.
fn push_coin_name(out: &mut Vec<u8>, id: u8)
    ensures
        final(out)@ == old(out)@ + coin_name(id),
{
    if id == 0 {
        out.push('r' as u8);
        out.push('e' as u8);
        out.push('d' as u8);
    } else if id == 1 {
        out.push('b' as u8);
        out.push('l' as u8);
        out.push('u' as u8);
        out.push('e' as u8);
    } else if id == 2 {
        out.push('s' as u8);
        out.push('h' as u8);
        out.push('i' as u8);
        out.push('n' as u8);
        out.push('y' as u8);
    } else if id == 3 {
        out.push('c' as u8);
        out.push('o' as u8);
        out.push('n' as u8);
        out.push('c' as u8);
        out.push('a' as u8);
        out.push('v' as u8);
        out.push('e' as u8);
    } else if id == 4 {
        out.push('c' as u8);
        out.push('o' as u8);
        out.push('r' as u8);
        out.push('r' as u8);
        out.push('o' as u8);
        out.push('d' as u8);
        out.push('e' as u8);
        out.push('d' as u8);
    } else {
        proof {
            assert(final(out)@ =~= old(out)@ + coin_name(id));
        }
        return;
    }
    if id <= 3 {
        out.push(' ' as u8);
        out.push('c' as u8);
        out.push('o' as u8);
        out.push('i' as u8);
        out.push('n' as u8);
    } else {
        out.push(' ' as u8);
        out.push('c' as u8);
        out.push('o' as u8);
        out.push('i' as u8);
        out.push('n' as u8);
    }
    proof {
        assert(final(out)@ =~= old(out)@ + coin_name(id));
    }
}

/// Place the coins of every ordering and pick them back up: for each
/// ordering, its five placement commands followed by the five pick-up
/// commands.
/// Enqueue the block of one ordering: its five placement commands, then
/// the five pick-up commands.
fn place_one(vm: &mut VM, order: &Vec<u8>)
    requires
        order@.len() == 5,
    ensures
        final(vm)@ == (State {
            inputs: old(vm)@.inputs + use_block(order@) + take_block(),
            ..old(vm)@
        }),
{
    push_use(vm, order[0]);
    push_use(vm, order[1]);
    push_use(vm, order[2]);
    push_use(vm, order[3]);
    push_use(vm, order[4]);
    pick_up(vm);
    proof {
        lemma_use_block5(order@);
        assert(final(vm)@.inputs =~= old(vm)@.inputs + use_block(order@) + take_block());
    }
}

/// Place the coins of every ordering and pick them back up: for each
/// ordering, its five placement commands followed by the five pick-up
/// commands.
fn place_coins(vm: &mut VM, orders: &Vec<Vec<u8>>)
    requires
        forall|i: int| 0 <= i < orders@.len() ==> #[trigger] orders@[i]@.len() == 5,
    ensures
        final(vm)@ == (State {
            inputs: old(vm)@.inputs + coin_script(orders.deep_view()),
            ..old(vm)@
        }),
{
    let ghost all: Seq<Seq<u8>> = orders.deep_view();
    let mut p: usize = 0;
    while p < orders.len()
        invariant
            p <= orders@.len(),
            all == orders.deep_view(),
            forall|i: int| 0 <= i < orders@.len() ==> #[trigger] orders@[i]@.len() == 5,
            vm@ == (State {
                inputs: old(vm)@.inputs + coin_script(all.take(p as int)),
                ..old(vm)@
            }),
        decreases orders@.len() - p,
    {
        let order = &orders[p];
        proof {
            assert(all[p as int] == order@);
        }
        place_one(vm, order);
        proof {
            lemma_coin_script_push(all.take(p as int), order@);
            assert(all.take(p as int).push(all[p as int]) =~= all.take(p as int + 1));
            assert(vm@.inputs =~= old(vm)@.inputs + coin_script(all.take(p as int + 1)));
        }
        p = p + 1;
    }
    proof {
        assert(all.take(orders@.len() as int) =~= all);
    }
}

/// Enqueue the five pick-up commands, one per coin in identifier order.
fn pick_up(vm: &mut VM)
    ensures
        final(vm)@ == (State { inputs: old(vm)@.inputs + take_block(), ..old(vm)@ }),
{
    push_take(vm, 0);
    push_take(vm, 1);
    push_take(vm, 2);
    push_take(vm, 3);
    push_take(vm, 4);
    proof {
        assert(final(vm)@.inputs =~= old(vm)@.inputs + take_block());
    }
}

/// Enqueue the whole arrangement script: for every ordering of the five
/// coins, in the order the permutation adaptor yields them, the commands
/// that place the coins and pick them back up.
pub fn solver(vm: &mut VM)
    ensures
        final(vm)@ == (State {
            inputs: old(vm)@.inputs + coin_script(perm_orders(coin_ids())),
            ..old(vm)@
        }),
{
    let mut ids: Vec<u8> = Vec::new();
    ids.push(0);
    ids.push(1);
    ids.push(2);
    ids.push(3);
    ids.push(4);
    proof {
        assert(ids@ =~= coin_ids());
    }
    let orders = permutations_of(&ids);
    proof {
        assert(forall|i: int| 0 <= i < orders@.len() ==> #[trigger] orders@[i]@.len() == 5);
        assert(orders.deep_view() == perm_orders(coin_ids()));
    }
    place_coins(vm, &orders);
}

} // verus!
