use docengine::graph::{ParseInfo, Relation, Resource, Symbol};
use docengine::kernel_space::{
    shown, unescape, Kernel, KernelError, KernelId, KernelSpace, KernelStatus, Repl, Shown,
    SymbolInfo,
};

fn symbol(name: &str, kind: &str) -> Resource {
    Resource::Symbol(Symbol { name: String::from(name), kind: String::from(kind) })
}

fn info<'a>(space: &'a KernelSpace, name: &str) -> &'a SymbolInfo {
    &space.symbols.iter().find(|entry| entry.name == name).unwrap().info
}

fn two_kernels() -> (KernelSpace, KernelId, KernelId) {
    let mut space = KernelSpace::new();
    let py = space.start(Kernel::Jupyter, vec![String::from("python3"), String::from("py")]).unwrap();
    let r = space.start(Kernel::Jupyter, vec![String::from("r")]).unwrap();
    (space, py, r)
}

#[test]
fn ensure_finds_the_first_kernel_for_a_language() {
    let (mut space, py, r) = two_kernels();
    assert_eq!((py, r), (KernelId(0), KernelId(1)));
    assert_eq!(space.ensure(&String::from("py")), Some(py));
    assert_eq!(space.ensure(&String::from("python3")), Some(py));
    assert_eq!(space.ensure(&String::from("r")), Some(r));
    assert_eq!(space.ensure(&String::from("julia")), None);
    let second = space.start(Kernel::Jupyter, vec![String::from("r")]).unwrap();
    assert_eq!(second, KernelId(2));
    assert_eq!(space.ensure(&String::from("r")), Some(r));
    assert_eq!(KernelSpace::kind_for(""), Kernel::Default);
    assert_eq!(KernelSpace::kind_for("none"), Kernel::Default);
    assert_eq!(KernelSpace::kind_for("calc"), Kernel::Calc);
    assert_eq!(KernelSpace::kind_for("python"), Kernel::Jupyter);
}

#[test]
fn kernels_are_listed_and_stopped() {
    let (mut space, py, r) = two_kernels();
    let infos = space.kernels();
    assert_eq!(infos.len(), 2);
    assert_eq!(infos[0].id, py);
    assert_eq!(infos[0].language, "python3");
    assert_eq!(infos[0].status, KernelStatus::Idle);
    assert_eq!(space.kernels.get(r).unwrap().id, r);
    assert_eq!(space.stop(py), Ok(()));
    assert_eq!(space.kernels().len(), 1);
    assert_eq!(space.stop(py), Err(KernelError::UnknownKernel(py)));
    assert_eq!(space.kernels.get(py).unwrap_err(), KernelError::UnknownKernel(py));
    let entry = space.kernels.get(r).unwrap();
    assert_eq!(entry.language(None), Ok(String::from("r")));
    assert_eq!(entry.language(Some(&String::from("r"))), Ok(String::from("r")));
    assert_eq!(
        entry.language(Some(&String::from("py"))),
        Err(KernelError::IncompatibleLanguage(String::from("py")))
    );
    let nameless = space.start(Kernel::Default, vec![]).unwrap();
    assert_eq!(space.kernels().last().unwrap().language, "-");
    assert_eq!(space.kernels().last().unwrap().id, nameless);
}

#[test]
fn unknown_symbol_is_an_error() {
    let (space, _, _) = two_kernels();
    assert_eq!(
        space.get(&String::from("x")),
        Err(KernelError::UnknownSymbol(String::from("x")))
    );
}

#[test]
fn set_makes_the_kernel_the_home_and_clears_mirrors() {
    let (mut space, py, r) = two_kernels();
    space.record_set(&String::from("x"), py, 10);
    assert_eq!(space.get(&String::from("x")), Ok(py));
    space.record_mirrored(&String::from("x"), r, 12);
    assert_eq!(info(&space, "x").mirrored_to(r), Some(12));
    space.record_set(&String::from("x"), r, 20);
    assert_eq!(space.get(&String::from("x")), Ok(r));
    assert_eq!(info(&space, "x").assigned, 20);
    assert_eq!(info(&space, "x").mirrored_to(r), None);
    assert_eq!(info(&space, "x").mirrored_to(py), None);
    assert_eq!(space.symbols.len(), 1);
}

#[test]
fn symbol_is_mirrored_before_code_in_another_kernel_uses_it() {
    // A (py): x = 2, B (r): y = x + 3; only B is executed
    let (mut space, py, r) = two_kernels();
    space.record_assigned(&vec![(Relation::Assign, symbol("x", "Number"))], py, 100);
    assert_eq!(info(&space, "x").kind, "Number");

    let relations = vec![
        (Relation::Use, symbol("x", "")),
        (Relation::Use, symbol("unknown", "")),
        (Relation::Assign, symbol("y", "Number")),
    ];
    let (at, mirror) = space.next_mirror(r, &relations, 0).unwrap();
    assert_eq!(at, 0);
    assert_eq!(mirror.name, "x");
    assert_eq!(mirror.home, py);
    space.record_mirrored(&mirror.name, r, 105);
    assert!(space.next_mirror(r, &relations, at + 1).is_none());
    assert!(space.next_mirror(r, &relations, 0).is_none());
    assert!(info(&space, "x").mirrored_to(r).unwrap() >= info(&space, "x").assigned);

    space.record_assigned(&relations, r, 110);
    assert_eq!(space.get(&String::from("y")), Ok(r));
    assert_eq!(space.get(&String::from("x")), Ok(py));

    // assigned again at home, the mirror is stale
    space.record_assigned(&vec![(Relation::Assign, symbol("x", "Number"))], py, 120);
    assert!(info(&space, "x").is_stale_in(r));
    assert!(!info(&space, "x").is_stale_in(py));
    assert_eq!(space.next_mirror(r, &relations, 0).unwrap().0, 0);
    // in its home nothing is mirrored
    assert!(space.next_mirror(py, &relations, 0).is_none());
}

#[test]
fn clock_reading_functions_keep_the_books() {
    let (mut space, py, r) = two_kernels();
    space.set(&String::from("a"), py);
    let assigned = info(&space, "a").assigned;
    assert!(assigned > 1_600_000_000_000);
    space.mirrored(&String::from("a"), r);
    assert!(info(&space, "a").mirrored_to(r).unwrap() >= assigned);
    space.exec(&vec![(Relation::Assign, symbol("b", "Text"))], r);
    assert_eq!(space.get(&String::from("b")), Ok(r));
    assert_eq!(space.homed_in(r), vec![String::from("b")]);
    assert_eq!(space.homed_in(py), vec![String::from("a")]);
}

#[test]
fn symbol_info_starts_unmirrored() {
    let info = SymbolInfo::new("Function", KernelId(3), 77);
    assert_eq!(info.kind, "Function");
    assert_eq!(info.home, KernelId(3));
    assert_eq!(info.assigned, 77);
    assert!(info.mirrored.is_empty());
    assert!(info.is_stale_in(KernelId(4)));
}

#[test]
fn code_is_pure_unless_it_has_a_side_effect_or_says_otherwise() {
    let reads = ParseInfo { pure: None, relations: vec![(Relation::Use, symbol("x", "")), (Relation::Read, Resource::File(String::from("data.csv")))] };
    assert!(reads.is_pure());
    for relation in [Relation::Assign, Relation::Alter, Relation::Import, Relation::Write] {
        let writes = ParseInfo { pure: None, relations: vec![(Relation::Use, symbol("x", "")), (relation, symbol("y", ""))] };
        assert!(!writes.is_pure());
        let tagged = ParseInfo { pure: Some(true), relations: vec![(relation, symbol("y", ""))] };
        assert!(tagged.is_pure());
    }
    let tagged = ParseInfo { pure: Some(false), relations: vec![] };
    assert!(!tagged.is_pure());
    assert!(ParseInfo { pure: None, relations: vec![] }.is_pure());
}

#[test]
fn line_at_the_prompt_asks_for_symbols_kernels_or_code() {
    assert_eq!(KernelSpace::repl(""), Repl::Nothing);
    assert_eq!(KernelSpace::repl("%symbols"), Repl::Symbols);
    assert_eq!(KernelSpace::repl("%kernels"), Repl::Kernels);
    assert_eq!(KernelSpace::repl("x = 1\\ny = 2"), Repl::Execute(String::from("x = 1\ny = 2")));
    assert_eq!(KernelSpace::repl(" %symbols"), Repl::Execute(String::from(" %symbols")));
    for text in ["", "\\", "\\n", "a\\nb\\n", "\\\\n", "n\\", "é\\nü", "plain"] {
        assert_eq!(unescape(text), text.replace("\\n", "\n"));
    }
    assert_eq!(shown(0), Shown::Nothing);
    assert_eq!(shown(1), Shown::One);
    assert_eq!(shown(5), Shown::All);
}

#[test]
fn mirror_is_never_noted_before_the_assignment() {
    let (mut space, py, r) = two_kernels();
    space.record_set(&String::from("x"), py, 100);
    // the clock stands before the assignment
    space.record_mirrored(&String::from("x"), r, 40);
    assert_eq!(info(&space, "x").mirrored_to(r), Some(100));
    assert!(!info(&space, "x").is_stale_in(r));
    assert!(space.next_mirror(r, &vec![(Relation::Use, symbol("x", ""))], 0).is_none());
    // and after it
    space.record_mirrored(&String::from("x"), r, 140);
    assert_eq!(info(&space, "x").mirrored_to(r), Some(140));
    assert_eq!(info(&space, "x").assigned, 100);
    assert_eq!(space.get(&String::from("x")), Ok(py));
    // of a symbol that is not known nothing is noted
    space.record_mirrored(&String::from("y"), r, 140);
    assert_eq!(space.symbols.len(), 1);
}
