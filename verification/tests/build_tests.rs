use mix::atom::Atom;
use mix::autotools_commands::{aclocal, autoconf, autoheader, automake};
use mix::build::autotools::{configure_command, Flag, Kind, Value};
use mix::build::compiler::{Compiler, Linker};
use mix::build::configs::{candidates, System};
use mix::build::layout::{headers, layout};
use mix::build::steps::{build_steps, extract_command, make_command, prepare_steps};
use mix::build::toolchain::{destination, toolchain};
use mix::cmake::{self, Generator};
use mix::command::{join, Command, EnvChange, Stdio};
use mix::environment::{headers as env_headers, plan, Config};
use mix::id::{PackageId, RepositoryId};
use mix::triple::Triple;
use mix::packages::package::Package;
use mix::version::Version;

fn args(c: &Command) -> Vec<String> {
    c.args.clone()
}

#[test]
fn flag_texts() {
    assert_eq!(Flag::new(Kind::Define, "nls", Value::True).to_os_string(), "--enable-nls");
    assert_eq!(Flag::new(Kind::Define, "nls", Value::False).to_os_string(), "--disable-nls");
    assert_eq!(Flag::new(Kind::Define, "x", Value::Custom(String::from("y"))).to_os_string(), "--enable-x=y");
    assert_eq!(Flag::new(Kind::Include, "zlib", Value::True).to_os_string(), "--with-zlib");
    assert_eq!(Flag::new(Kind::Include, "zlib", Value::False).to_os_string(), "--without-zlib");
    assert_eq!(Flag::new(Kind::Include, "a", Value::Custom(String::from("b"))).to_os_string(), "--with-a=b");
}

#[test]
fn configure_command_line() {
    let c = configure_command("/src", "/dest");
    assert_eq!(c.program, "/src/configure");
    assert_eq!(args(&c), vec!["--prefix=/dest"]);
    assert_eq!(c.current_dir.as_deref(), Some("/src"));
    assert_eq!(c.env[0], EnvChange::Remove(String::from("CC")));
    assert_eq!(c.env[7], EnvChange::Assign(String::from("PREFIX"), String::from("/dest")));
    assert_eq!(c.stdin, Some(Stdio::Null));
}

#[test]
fn compiler_flags_in_order() {
    let mut c = Compiler::new();
    c.opt_level("2").target_cpu("native").pic().link("m").include_dir("/inc");
    assert_eq!(c.as_slice().to_vec(), vec!["-O2", "-march=native", "-fPIC", "-lm", "-I/inc"]);
    let mut l = Linker::new();
    l.runtime_path("/lib").library_dir("/l");
    assert_eq!(l.as_slice().len(), 2);
}

#[test]
fn toolchain_for_x86_64() {
    let t = toolchain("/milk", &Triple::from_str("x86_64-linux-gnu").unwrap(), &RepositoryId::from_str("core").unwrap());
    assert_eq!(t.libc_lib, "/milk/x86_64-linux-gnu/core/glibc/2.34.0/lib");
    assert!(t.cflags.starts_with("-Ofast -march=native -nodefaultlibs -nostartfiles -fPIC"));
    assert!(t.cflags.ends_with("-Wl,--dynamic-linker=/milk/x86_64-linux-gnu/core/glibc/2.34.0/lib/ld-linux-x86_64.so.2"));
    assert_eq!(
        t.ldflags,
        "-Wl,--rpath=/milk/x86_64-linux-gnu/core/glibc/2.34.0/lib -Wl,--dynamic-linker=/milk/x86_64-linux-gnu/core/glibc/2.34.0/lib/ld-linux-x86_64.so.2"
    );
}

#[test]
fn toolchain_for_aarch64_has_no_native_cpu() {
    let t = toolchain("/milk", &Triple::from_str("aarch64-linux-musl").unwrap(), &RepositoryId::from_str("core").unwrap());
    assert!(t.cflags.starts_with("-Ofast -nodefaultlibs"));
}

#[test]
fn destination_of_a_version() {
    let d = destination(
        "/milk",
        &Triple::from_str("i686-linux-gnu").unwrap(),
        &RepositoryId::from_str("core").unwrap(),
        "make",
        &Version::parse("4.3.0").unwrap(),
    );
    assert_eq!(d, "/milk/i686-linux-gnu/core/make/4.3.0");
}

#[test]
fn environment_plan_for_i686() {
    let config = Config {
        prefix: String::from("/milk"),
        target: Triple::from_str("i686-linux-gnu").unwrap(),
        atom: Atom::parse("make:4.3.0").unwrap(),
    };
    let p = plan(&config, "/work", "$ ");
    assert_eq!(p.repository_id.as_str(), "core");
    assert_eq!(p.destination, "/milk/i686-linux-gnu/core/make/4.3.0");
    assert_eq!(p.command.program, "sh");
    assert_eq!(p.command.current_dir.as_deref(), Some("/work"));
    assert_eq!(p.command.env[0], EnvChange::Clear);
    assert_eq!(p.command.env.last().cloned(), Some(EnvChange::Assign(String::from("CXXFLAGS"), String::from("-m32"))));
    let shown = env_headers(&config, &p);
    assert_eq!(shown.len(), 8);
    assert_eq!(shown[0], (String::from("prefix"), String::from("/milk")));
    assert_eq!(shown[1], (String::from("target"), String::from("i686-linux-gnu")));
    assert_eq!(shown[4], (String::from("version"), String::from("4.3.0")));
    assert_eq!(shown[5], (String::from("destination"), String::from("/milk/i686-linux-gnu/core/make/4.3.0")));
    assert_eq!(shown[6].1, p.toolchain.cflags);
}

#[test]
fn system_found_files() {
    let id = PackageId::from_str("make").unwrap();
    let cands = candidates(&id, "/src");
    assert!(cands.iter().any(|(n, p)| n == "configure" && p == "/src/configure"));
    assert!(cands.iter().any(|(n, _)| n == "make.sh"));
    let exists: Vec<bool> = cands.iter().map(|(n, _)| n == "configure" || n == "bootstrap.sh" || n == "Makefile").collect();
    let system = System::from_found(cands, &exists);
    assert!(system.has_autotools());
    assert!(system.has_bootstrap());
    assert!(system.has_makefile());
    assert!(!system.has_cmake());
    assert_eq!(system.get_bootstrap(), Some("/src/bootstrap.sh"));
    assert_eq!(system.get_autotools(), Some((Some("/src/bootstrap.sh"), Some("/src/configure"))));
    assert_eq!(system.get_makefile(), Some("/src/Makefile"));
    assert_eq!(system.get_autogen(), None);
}

#[test]
fn build_step_plans() {
    let id = PackageId::from_str("make").unwrap();
    let cands = candidates(&id, "/src");
    let exists: Vec<bool> = cands.iter().map(|(n, _)| n == "configure" || n == "autogen.sh" || n == "aclocal.m4" || n == "configure.ac").collect();
    let system = System::from_found(cands, &exists);
    let prep = prepare_steps(&system, "/build", "/src", "/home", "-O2", "-s");
    let programs: Vec<String> = prep.iter().map(|c| c.program.clone()).collect();
    assert_eq!(programs, vec!["/src/autogen.sh", "aclocal"]);
    let steps = build_steps(&system, "/dest", "/build", "/home", 4);
    let programs: Vec<String> = steps.iter().map(|c| c.program.clone()).collect();
    assert_eq!(programs, vec!["/src/configure", "make", "make"]);
    assert_eq!(args(&steps[0]), vec!["--prefix=/dest"]);
    assert_eq!(args(&steps[1]), vec!["-j4"]);
    assert_eq!(args(&steps[2]), vec!["install", "-j4"]);
    assert_eq!(args(&make_command(12, "/b", "/h")), vec!["-j12"]);
}

#[test]
fn extract_command_line() {
    let c = extract_command("/cache/v1.0.0.tar.gz", "/build/1.0.0");
    assert_eq!(c.program, "bsdtar");
    assert_eq!(args(&c), vec!["xvf", "/cache/v1.0.0.tar.gz"]);
    assert_eq!(c.current_dir.as_deref(), Some("/build/1.0.0"));
    assert_eq!(c.env, vec![EnvChange::Assign(String::from("HOME"), String::from("/"))]);
}

#[test]
fn command_builders_and_join() {
    let mut c = Command::new("cc");
    c.arg("-c").env("A", "1").env_remove("B").env_clear().current_dir("/x").stdout(Stdio::Piped);
    c.c_compiler("clang").paths(&[String::from("/bin"), String::from("/usr/bin")]);
    assert_eq!(args(&c), vec!["-c"]);
    assert_eq!(c.env[0], EnvChange::Assign(String::from("A"), String::from("1")));
    assert_eq!(c.env[1], EnvChange::Remove(String::from("B")));
    assert_eq!(c.env[2], EnvChange::Clear);
    assert_eq!(c.env[3], EnvChange::Assign(String::from("CC"), String::from("clang")));
    assert_eq!(c.env[4], EnvChange::Assign(String::from("PATH"), String::from("/bin:/usr/bin")));
    assert_eq!(join(&[String::from("a"), String::from("b"), String::from("c")], ", "), "a, b, c");
    assert_eq!(join(&[], ", "), "");
    assert_eq!(Command::make().program, "make");
}

#[test]
fn cmake_command_lines() {
    assert_eq!(Generator::default(), Generator::UnixMakefiles);
    assert_eq!(Generator::UnixMakefiles.as_str(), "Unix Makefiles");
    assert_eq!(Generator::NinjaMultiConfig.as_str(), "Ninja Multi-Config");
    assert_eq!(Generator::CodeLiteUnixMakefiles.as_str(), "CodeBlocks - Unix Makefiles");
    let mut c = cmake::configure();
    c.generator(Generator::Ninja).source_dir("/src").build_dir("/b").prefix_dir("/usr").define("X", "1");
    assert_eq!(
        args(c.command()),
        vec!["-G", "Ninja", "-S", "/src", "-B", "/b", "-DCMAKE_INSTALL_PREFIX=/usr", "-DX=1"]
    );
    let mut b = cmake::build("/b");
    b.jobs(8);
    assert_eq!(b.command().program, "cmake");
    assert_eq!(args(b.command()), vec!["--build", "/b", "--parallel", "8"]);
    assert_eq!(args(cmake::install("/b").command()), vec!["--install", "/b"]);
}

#[test]
fn autotools_command_lines() {
    let a = aclocal("/src");
    assert_eq!(a.command().program, "aclocal");
    assert_eq!(args(a.command()), vec!["-I", "/src/m4"]);
    assert_eq!(a.command().current_dir.as_deref(), Some("/src"));
    assert_eq!(args(autoconf("/s").command()), vec!["--force"]);
    assert!(autoheader("/s").command().args.is_empty());
    assert_eq!(args(automake("/s").command()), vec!["--add-missing", "--copy", "--foreign", "--force-missing"]);
}

#[test]
fn layout_of_a_new_version_and_its_headers() {
    let mut p = Package::new(
        "/mix/build",
        "/mix/repos",
        RepositoryId::from_str("core").unwrap(),
        PackageId::from_str("make").unwrap(),
        vec![],
        vec![],
    );
    let target = Triple::from_str("x86_64-linux-gnu").unwrap();
    let v = Version::parse("4.3.0").unwrap();
    let l = layout("/milk", &target, &p, &v, true).unwrap();
    assert_eq!(l.version_dir, "/mix/build/core/make/4.3.0");
    assert_eq!(l.build_dir, "/mix/build/core/make/4.3.0/build");
    assert_eq!(l.destination, "/milk/x86_64-linux-gnu/core/make/4.3.0");
    let same = layout("/milk", &target, &p, &v, false).unwrap();
    assert_eq!(same.build_dir, same.version_dir);
    let lines = headers(&p, &v, &l, "-O2", "-s");
    assert_eq!(
        lines,
        vec![
            "building core/make:4.3.0",
            "destination /milk/x86_64-linux-gnu/core/make/4.3.0",
            "build /mix/build/core/make/4.3.0/build",
            "cflags -O2",
            "ldflags -s",
        ]
    );
    p.insert_version(v.copy(), String::from("/milk/x86_64-linux-gnu/core/make/4.3.0"));
    assert!(layout("/milk", &target, &p, &v, true).is_none());
}
