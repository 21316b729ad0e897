use super::bytecode::util::{host_bytes, lemma_int_value_of_bytes, lemma_radix_pow_values};
use super::model::{
    load, loaded_symbols, patched, relocate_all, relocated, run, step, MachineView, TableValue,
};
use crate::asm_compiler::laws::{fits_machine, lemma_compiled_module_well_formed};
use crate::asm_compiler::model::{
    compile_module, sites_apart, CompiledModuleView, CompiledTargetView,
};
use crate::assembly::view::StatementView;
use vstd::endian::endianness;
use vstd::prelude::*;

verus! {

/// Relocating leaves the code as long as it was, and leaves at the site of
/// each relocation the address that the relocation puts there, where no two
/// sites overlap.
pub proof fn lemma_relocate_all_sites(
    code: Seq<u8>,
    base: int,
    module: Seq<char>,
    relocations: Seq<(u64, CompiledTargetView)>,
    symbols: Map<Seq<char>, TableValue>,
    i: int,
)
    requires
        relocate_all(code, base, module, relocations, symbols) is Ok,
        0 <= i < relocations.len(),
        0 <= base,
        sites_apart(relocations),
        forall|k: int|
            0 <= k < relocations.len() ==> base + (#[trigger] relocations[k]).0 + 8 <= code.len(),
    ensures
        relocate_all(code, base, module, relocations, symbols)->Ok_0.len() == code.len(),
        relocated(relocations[i].1, base, module, symbols) is Ok,
        relocate_all(code, base, module, relocations, symbols)->Ok_0.subrange(
            base + relocations[i].0,
            base + relocations[i].0 + 8,
        ) == host_bytes(relocated(relocations[i].1, base, module, symbols)->Ok_0 as nat, 8),
    decreases relocations.len(),
{
    let front = relocations.drop_last();
    let last = relocations.last();
    let done = relocate_all(code, base, module, front, symbols)->Ok_0;
    let addr = relocated(last.1, base, module, symbols)->Ok_0;
    let result = relocate_all(code, base, module, relocations, symbols)->Ok_0;
    lemma_radix_pow_values();
    lemma_int_value_of_bytes(endianness(), addr as nat, 8);
    assert(sites_apart(front)) by {
        assert forall|a: int, b: int| 0 <= a < front.len() && 0 <= b < front.len() && a
            != b implies (#[trigger] front[a]).0 + 8 <= (#[trigger] front[b]).0 || front[b].0 + 8
            <= front[a].0 by {
            assert(front[a] == relocations[a]);
            assert(front[b] == relocations[b]);
        }
    }
    assert forall|k: int| 0 <= k < front.len() implies base + (#[trigger] front[k]).0 + 8
        <= code.len() by {
        assert(front[k] == relocations[k]);
    }
    lemma_relocate_all_len(code, base, module, front, symbols);
    assert(relocations[relocations.len() - 1] == last);
    let at = base + last.0;
    assert(result == patched(done, at, addr));
    if i == relocations.len() - 1 {
        assert(result.subrange(at, at + 8) =~= host_bytes(addr as nat, 8));
    } else {
        assert(front[i] == relocations[i]);
        lemma_relocate_all_sites(code, base, module, front, symbols, i);
        let site = base + relocations[i].0;
        assert(result.subrange(site, site + 8) =~= done.subrange(site, site + 8));
    }
}

/// Relocating leaves the code as long as it was.
pub proof fn lemma_relocate_all_len(
    code: Seq<u8>,
    base: int,
    module: Seq<char>,
    relocations: Seq<(u64, CompiledTargetView)>,
    symbols: Map<Seq<char>, TableValue>,
)
    requires
        relocate_all(code, base, module, relocations, symbols) is Ok,
        0 <= base,
        forall|k: int|
            0 <= k < relocations.len() ==> base + (#[trigger] relocations[k]).0 + 8 <= code.len(),
    ensures
        relocate_all(code, base, module, relocations, symbols)->Ok_0.len() == code.len(),
    decreases relocations.len(),
{
    if relocations.len() > 0 {
        let front = relocations.drop_last();
        let last = relocations.last();
        assert forall|k: int| 0 <= k < front.len() implies base + (#[trigger] front[k]).0 + 8
            <= code.len() by {
            assert(front[k] == relocations[k]);
        }
        lemma_relocate_all_len(code, base, module, front, symbols);
        assert(relocations[relocations.len() - 1] == last);
        let addr = relocated(last.1, base, module, symbols)->Ok_0;
        lemma_radix_pow_values();
        lemma_int_value_of_bytes(endianness(), addr as nat, 8);
    }
}

/// After a module is loaded, the site of each relocation by the path of a
/// function holds the address at which the symbol under that path is called:
/// the address of a defined function, or the one that stands for a
/// primitive. It holds of a module in which no two sites overlap.
pub proof fn lemma_load_relocates_calls(
    m: MachineView,
    module: CompiledModuleView,
    values: Seq<Option<u64>>,
    i: int,
)
    requires
        load(m, module, values) is Ok,
        module.loadable(),
        sites_apart(module.relocations),
        0 <= i < module.relocations.len(),
        module.relocations[i].1 is ExternalFunctionPath,
    ensures
        ({
            let after = load(m, module, values)->Ok_0;
            let path = module.relocations[i].1->ExternalFunctionPath_0;
            let site = m.code.len() + module.relocations[i].0;
            &&& after.code.len() == m.code.len() + module.code.len()
            &&& after.symbols.contains_key(path)
            &&& after.symbols[path].spec_as_addr() is Some
            &&& after.code.subrange(site, site + 8) == host_bytes(
                after.symbols[path].spec_as_addr()->Some_0 as nat,
                8,
            )
        }),
{
    let symbols = loaded_symbols(m, module, values)->Ok_0;
    lemma_relocate_all_sites(
        m.code + module.code,
        m.code.len() as int,
        module.name,
        module.relocations,
        symbols,
        i,
    );
}

/// After a module that was compiled is loaded, the site of each of its
/// calls holds the address at which the symbol under the path of the call is
/// called: no such site is left as the compiler has made it.
pub proof fn lemma_load_compiled_relocates_calls(
    m: MachineView,
    stmts: Seq<StatementView>,
    values: Seq<Option<u64>>,
    i: int,
)
    requires
        compile_module(stmts) is Ok,
        fits_machine(stmts),
        load(m, compile_module(stmts)->Ok_0, values) is Ok,
        0 <= i < compile_module(stmts)->Ok_0.relocations.len(),
        compile_module(stmts)->Ok_0.relocations[i].1 is ExternalFunctionPath,
    ensures
        ({
            let module = compile_module(stmts)->Ok_0;
            let after = load(m, module, values)->Ok_0;
            let path = module.relocations[i].1->ExternalFunctionPath_0;
            let site = m.code.len() + module.relocations[i].0;
            &&& after.symbols.contains_key(path)
            &&& after.symbols[path].spec_as_addr() is Some
            &&& after.code.subrange(site, site + 8) == host_bytes(
                after.symbols[path].spec_as_addr()->Some_0 as nat,
                8,
            )
        }),
{
    let module = compile_module(stmts)->Ok_0;
    lemma_compiled_module_well_formed(stmts);
    lemma_load_relocates_calls(m, module, values, i);
}


/// Relocating changes no byte before the place at which the module is
/// loaded.
pub proof fn lemma_relocate_all_keeps_start(
    code: Seq<u8>,
    base: int,
    module: Seq<char>,
    relocations: Seq<(u64, CompiledTargetView)>,
    symbols: Map<Seq<char>, TableValue>,
)
    requires
        relocate_all(code, base, module, relocations, symbols) is Ok,
        0 <= base <= code.len(),
        forall|k: int|
            0 <= k < relocations.len() ==> base + (#[trigger] relocations[k]).0 + 8 <= code.len(),
    ensures
        relocate_all(code, base, module, relocations, symbols)->Ok_0.take(base) == code.take(
            base,
        ),
    decreases relocations.len(),
{
    if relocations.len() > 0 {
        let front = relocations.drop_last();
        let last = relocations.last();
        assert forall|k: int| 0 <= k < front.len() implies base + (#[trigger] front[k]).0 + 8
            <= code.len() by {
            assert(front[k] == relocations[k]);
        }
        lemma_relocate_all_keeps_start(code, base, module, front, symbols);
        lemma_relocate_all_len(code, base, module, front, symbols);
        assert(relocations[relocations.len() - 1] == last);
        let done = relocate_all(code, base, module, front, symbols)->Ok_0;
        let result = relocate_all(code, base, module, relocations, symbols)->Ok_0;
        assert(result.take(base) =~= done.take(base));
    }
}

/// Loading a module changes nothing of the code that was there: the module
/// comes after it, and the relocations are done within the module.
pub proof fn lemma_load_keeps_code(
    m: MachineView,
    module: CompiledModuleView,
    values: Seq<Option<u64>>,
)
    requires
        load(m, module, values) is Ok,
        module.loadable(),
    ensures
        load(m, module, values)->Ok_0.code.len() == m.code.len() + module.code.len(),
        load(m, module, values)->Ok_0.code.take(m.code.len() as int) == m.code,
        load(m, module, values)->Ok_0.call_stack == m.call_stack,
        load(m, module, values)->Ok_0.stack == m.stack,
        load(m, module, values)->Ok_0.ip == m.ip,
{
    let symbols = loaded_symbols(m, module, values)->Ok_0;
    let base = m.code.len() as int;
    let code = m.code + module.code;
    lemma_relocate_all_keeps_start(code, base, module.name, module.relocations, symbols);
    lemma_relocate_all_len(code, base, module.name, module.relocations, symbols);
    assert((m.code + module.code).take(base) =~= m.code);
}

/// A step of the machine changes neither the code nor the symbols.
pub proof fn lemma_step_keeps_code(m: MachineView)
    ensures
        step(m) matches Ok((after, _)) ==> after.code == m.code && after.symbols == m.symbols,
{
}

/// A run of the machine changes neither the code nor the symbols.
pub proof fn lemma_run_keeps_code(m: MachineView, budget: nat)
    ensures
        run(m, budget).0.code == m.code,
        run(m, budget).0.symbols == m.symbols,
    decreases budget,
{
    if budget > 0 {
        lemma_step_keeps_code(m);
        match step(m) {
            Ok((after, _)) => {
                lemma_run_keeps_code(after, (budget - 1) as nat);
            },
            Err(_) => {},
        }
    }
}

} // verus!
