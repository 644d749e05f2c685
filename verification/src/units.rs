//! Three units: two that only greet, and one that greets as its parameters
//! tell it to.

use crate::descriptor::{DescriptorView, License, ModuleDescriptor};
use crate::lifecycle::{InitError, Unit};
use crate::log::{Log, LogEntry, Severity};
use crate::param::{Parameter, ParameterView, Value};
use crate::store::{read_integer_result, read_text_result, ParameterStore, StoreMap};
use crate::text::{decimal, to_decimal};
use vstd::prelude::*;
use vstd::string::*;
use vstd::utf8::*;

verus! {

/// The message that every unit here writes when it is initialised. It ends
/// with a line feed.
pub open spec fn banner() -> LogEntry {
    LogEntry { severity: Severity::Info, text: "Hello world from rust!\n"@ }
}

/// The message that every unit here writes when it is cleaned up. It ends
/// with a line feed.
pub open spec fn farewell() -> LogEntry {
    LogEntry { severity: Severity::Info, text: "Bye world from rust!\n"@ }
}

/// The greeting with the number `i`, for `whom`: the number in decimal, then
/// ` Hello, `, then the name, and no line feed after it.
pub open spec fn greeting(i: nat, whom: Seq<char>) -> LogEntry {
    LogEntry { severity: Severity::Info, text: decimal(i) + " Hello, "@ + whom }
}

/// The greetings with the numbers from 0 up to `count`, `count` left out;
/// none where `count` is zero or less.
pub open spec fn greetings(count: int, whom: Seq<char>) -> Seq<LogEntry> {
    Seq::new(
        if count > 0 {
            count as nat
        } else {
            0
        },
        |i: int| greeting(i as nat, whom),
    )
}

fn write_banner(log: &mut Log)
    ensures
        final(log)@ == old(log)@ + seq![banner()],
{
    log.emit(Severity::Info, String::from_str("Hello world from rust!\n"));
    assert(log@ =~= old(log)@ + seq![banner()]);
}

fn write_farewell(log: &mut Log)
    ensures
        final(log)@ == old(log)@ + seq![farewell()],
{
    log.emit(Severity::Info, String::from_str("Bye world from rust!\n"));
    assert(log@ =~= old(log)@ + seq![farewell()]);
}

/// Writes `count` greetings for `whom` to `log`, numbered from 0; none where
/// `count` is zero or less.
pub fn greet(count: i32, whom: &str, log: &mut Log)
    ensures
        final(log)@ == old(log)@ + greetings(count as int, whom@),
{
    let ghost before = log@;
    let mut i: i32 = 0;
    assert(log@ =~= before + greetings(0, whom@));
    while i < count
        invariant
            0 <= i,
            i <= count || i == 0,
            log@ == before + greetings(i as int, whom@),
        decreases count - i,
    {
        let mut text = to_decimal(i as u32);
        text.append(" Hello, ");
        text.append(whom);
        log.emit(Severity::Info, text);
        assert(log@ =~= before + greetings(i + 1, whom@));
        i += 1;
    }
    assert(greetings(i as int, whom@) =~= greetings(count as int, whom@));
}

/// A unit that greets when it is loaded and takes its leave when it is
/// unloaded. It has no parameters and owns nothing. A value of this type is
/// the payload of a load; `init` alone makes one.
#[derive(Debug)]
pub struct HelloWorld {
    /// Private, so that only `init` makes a payload.
    made_by_init: (),
}

impl Unit for HelloWorld {
    open spec fn descriptor_view() -> DescriptorView {
        DescriptorView {
            name: "hello_world"@,
            author: "Douglas Su"@,
            license: License::GplCompatible,
            description: "A simple hello world example"@,
        }
    }

    open spec fn parameter_views() -> Seq<ParameterView> {
        Seq::empty()
    }

    open spec fn init_result(name: Seq<char>, config: StoreMap) -> Result<(), InitError> {
        Ok(())
    }

    open spec fn init_messages(name: Seq<char>, config: StoreMap) -> Seq<LogEntry> {
        seq![banner()]
    }

    open spec fn cleanup_messages() -> Seq<LogEntry> {
        seq![farewell()]
    }

    fn descriptor() -> (r: ModuleDescriptor) {
        proof {
            reveal_strlit("hello_world");
        }
        ModuleDescriptor::new(
            "hello_world",
            "Douglas Su",
            License::GplCompatible,
            "A simple hello world example",
        ).unwrap()
    }

    fn parameters() -> (r: Vec<Parameter>) {
        let r: Vec<Parameter> = Vec::new();
        assert(crate::store::views(r@) =~= Self::parameter_views());
        r
    }

    fn init(_name: &str, _config: &ParameterStore, log: &mut Log) -> (r: Result<Self, InitError>) {
        write_banner(log);
        Ok(HelloWorld { made_by_init: () })
    }

    fn cleanup(self, log: &mut Log) {
        write_farewell(log);
    }
}

/// A unit that stands for a simple storage device held in memory. Loading
/// and unloading it only greets; it has no parameters and owns nothing. A
/// value of this type is the payload of a load; `init` alone makes one.
#[derive(Debug)]
pub struct ScullBasic {
    /// Private, so that only `init` makes a payload.
    made_by_init: (),
}

impl Unit for ScullBasic {
    open spec fn descriptor_view() -> DescriptorView {
        DescriptorView {
            name: "scull_basic"@,
            author: "d0u9"@,
            license: License::GplCompatible,
            description: "A simple memory based storage device"@,
        }
    }

    open spec fn parameter_views() -> Seq<ParameterView> {
        Seq::empty()
    }

    open spec fn init_result(name: Seq<char>, config: StoreMap) -> Result<(), InitError> {
        Ok(())
    }

    open spec fn init_messages(name: Seq<char>, config: StoreMap) -> Seq<LogEntry> {
        seq![banner()]
    }

    open spec fn cleanup_messages() -> Seq<LogEntry> {
        seq![farewell()]
    }

    fn descriptor() -> (r: ModuleDescriptor) {
        proof {
            reveal_strlit("scull_basic");
        }
        ModuleDescriptor::new(
            "scull_basic",
            "d0u9",
            License::GplCompatible,
            "A simple memory based storage device",
        ).unwrap()
    }

    fn parameters() -> (r: Vec<Parameter>) {
        let r: Vec<Parameter> = Vec::new();
        assert(crate::store::views(r@) =~= Self::parameter_views());
        r
    }

    fn init(_name: &str, _config: &ParameterStore, log: &mut Log) -> (r: Result<Self, InitError>) {
        write_banner(log);
        Ok(ScullBasic { made_by_init: () })
    }

    fn cleanup(self, log: &mut Log) {
        write_farewell(log);
    }
}

/// A unit with two parameters: `howmany`, an integer, and `whom`, a string.
/// When it is loaded it greets `whom`, `howmany` times. A value of this
/// type is the payload of a load; `init` alone makes one.
#[derive(Debug)]
pub struct ModuleParameter {
    /// Private, so that only `init` makes a payload.
    made_by_init: (),
}

impl Unit for ModuleParameter {
    open spec fn descriptor_view() -> DescriptorView {
        DescriptorView {
            name: "hello_world"@,
            author: "d0u9"@,
            license: License::GplCompatible,
            description: "A simple hello world example"@,
        }
    }

    /// `howmany` is 3 and `whom` is `Mom` unless they are written; the
    /// owner may write both, everyone may read them.
    open spec fn parameter_views() -> Seq<ParameterView> {
        seq![
            ParameterView::fresh("howmany"@, Value::Integer(3), 0o644),
            ParameterView::fresh("whom"@, Value::Text(encode_utf8("Mom"@)), 0o644),
        ]
    }

    /// `init` needs `howmany` as an integer. Where that is more than zero
    /// it needs `whom` as text too; where it is not, `whom` is not looked
    /// at.
    open spec fn init_result(name: Seq<char>, config: StoreMap) -> Result<(), InitError> {
        match read_integer_result(config, "howmany"@) {
            Err(e) => Err(InitError { cause: e }),
            Ok(count) => if count <= 0 {
                Ok(())
            } else {
                match read_text_result(config, "whom"@) {
                    Err(e) => Err(InitError { cause: e }),
                    Ok(_) => Ok(()),
                }
            },
        }
    }

    /// The banner, then the greetings. Where `init` fails, the banner is
    /// all that is written.
    open spec fn init_messages(name: Seq<char>, config: StoreMap) -> Seq<LogEntry> {
        seq![banner()] + (match read_integer_result(config, "howmany"@) {
            Err(_) => Seq::empty(),
            Ok(count) => match read_text_result(config, "whom"@) {
                Err(_) => Seq::empty(),
                Ok(whom) => greetings(count as int, whom),
            },
        })
    }

    open spec fn cleanup_messages() -> Seq<LogEntry> {
        seq![farewell()]
    }

    fn descriptor() -> (r: ModuleDescriptor) {
        proof {
            reveal_strlit("hello_world");
        }
        ModuleDescriptor::new(
            "hello_world",
            "d0u9",
            License::GplCompatible,
            "A simple hello world example",
        ).unwrap()
    }

    fn parameters() -> (r: Vec<Parameter>) {
        let mut r: Vec<Parameter> = Vec::new();
        r.push(Parameter::integer("howmany", 3, 0o644));
        r.push(Parameter::text("whom", "Mom".as_bytes_vec(), 0o644));
        proof {
            reveal_strlit("howmany");
            reveal_strlit("whom");
            assert(crate::store::views(r@) =~= Self::parameter_views());
            assert("howmany"@.len() != "whom"@.len());
        }
        r
    }

    fn init(_name: &str, config: &ParameterStore, log: &mut Log) -> (r: Result<Self, InitError>) {
        let ghost before = log@;
        write_banner(log);
        let count = match config.read_integer("howmany") {
            Ok(count) => count,
            Err(e) => {
                assert(log@ =~= before + Self::init_messages(_name@, config@));
                return Err(InitError { cause: e });
            },
        };
        if count <= 0 {
            assert(log@ =~= before + Self::init_messages(_name@, config@));
            return Ok(ModuleParameter { made_by_init: () });
        }
        let whom = match config.read_text("whom") {
            Ok(whom) => whom,
            Err(e) => {
                assert(log@ =~= before + Self::init_messages(_name@, config@));
                return Err(InitError { cause: e });
            },
        };
        greet(count, whom.as_str(), log);
        assert(log@ =~= before + Self::init_messages(_name@, config@));
        Ok(ModuleParameter { made_by_init: () })
    }

    fn cleanup(self, log: &mut Log) {
        write_farewell(log);
    }
}

} // verus!
