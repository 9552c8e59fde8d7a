//! The macros of the target system that get a wrapper.

use crate::macros::{macros_view, materialize, materialized, MacroModel, MacroSpec};
use crate::macros_proofs::lemma_known_macros_materialize;
use vstd::pervasive::unreached;
use vstd::prelude::*;

verus! {

/// A macro that stands for a constant initializer of the given type.
pub open spec fn initializer_macro(name: Seq<char>, return_type: Seq<char>) -> MacroModel {
    MacroModel {
        name,
        return_type,
        argument_list: None,
        requires_definition_guard: false,
        constant_evaluable: true,
        fallback_literal: None,
    }
}

/// A macro that maps numbers to a peripheral of the given type.
pub open spec fn peripheral_macro(
    name: Seq<char>,
    return_type: Seq<char>,
    arguments: Seq<char>,
) -> MacroModel {
    MacroModel {
        name,
        return_type,
        argument_list: Some(arguments),
        requires_definition_guard: false,
        constant_evaluable: false,
        fallback_literal: None,
    }
}

/// A macro that is a statement: it switches a light.
pub open spec fn statement_macro(name: Seq<char>) -> MacroModel {
    MacroModel {
        name,
        return_type: "void"@,
        argument_list: None,
        requires_definition_guard: false,
        constant_evaluable: false,
        fallback_literal: None,
    }
}

/// A macro that only tells whether a light is there: 1 where it is
/// defined, -1 where it is not.
pub open spec fn presence_macro(name: Seq<char>) -> MacroModel {
    MacroModel {
        name,
        return_type: "int"@,
        argument_list: None,
        requires_definition_guard: true,
        constant_evaluable: true,
        fallback_literal: Some("-1"@),
    }
}

/// The digit that numbers a light.
pub open spec fn light_digit(index: int) -> char {
    if index == 0 {
        '0'
    } else if index == 1 {
        '1'
    } else if index == 2 {
        '2'
    } else if index == 3 {
        '3'
    } else if index == 4 {
        '4'
    } else if index == 5 {
        '5'
    } else if index == 6 {
        '6'
    } else {
        '7'
    }
}

/// The name of a macro of the light with the given number.
pub open spec fn light_name(index: int, action: Seq<char>) -> Seq<char> {
    "LED"@.push(light_digit(index)) + action
}

/// The macros of the light with the given number.
pub open spec fn light_macros(index: int) -> Seq<MacroModel> {
    seq![
        statement_macro(light_name(index, "_ON"@)),
        statement_macro(light_name(index, "_OFF"@)),
        statement_macro(light_name(index, "_TOGGLE"@)),
        presence_macro(light_name(index, "_IS_PRESENT"@)),
    ]
}

/// The macros of the lights with a number below `count`.
pub open spec fn lights(count: int) -> Seq<MacroModel>
    decreases count,
{
    if count <= 0 {
        Seq::empty()
    } else {
        lights(count - 1) + light_macros(count - 1)
    }
}

/// The macros of the target system that get a wrapper, but for the lights.
pub open spec fn known_values() -> Seq<MacroModel> {
    seq![
        initializer_macro("SOCK_IPV4_EP_ANY"@, "sock_udp_ep_t"@),
        initializer_macro("SOCK_IPV6_EP_ANY"@, "sock_udp_ep_t"@),
        initializer_macro("MUTEX_INIT"@, "mutex_t"@),
        initializer_macro("STATUS_NOT_FOUND"@, "thread_status_t"@),
        peripheral_macro("GPIO_PIN"@, "gpio_t"@, "unsigned port, unsigned pin"@),
        peripheral_macro("I2C_DEV"@, "i2c_t"@, "unsigned num"@),
        peripheral_macro("SPI_DEV"@, "spi_t"@, "unsigned num"@),
        peripheral_macro("UART_DEV"@, "uart_t"@, "unsigned num"@),
        peripheral_macro("PWM_DEV"@, "pwm_t"@, "unsigned num"@),
        peripheral_macro("ADC_LINE"@, "adc_t"@, "unsigned num"@),
        peripheral_macro("TIMER_DEV"@, "timer_t"@, "unsigned num"@),
        peripheral_macro("QDEC_DEV"@, "qdec_t"@, "unsigned num"@),
        peripheral_macro("DAC_LINE"@, "dac_t"@, "unsigned num"@),
    ]
}

/// The macros of the target system that get a wrapper: the known values,
/// then the macros of the eight lights.
pub open spec fn known_macros() -> Seq<MacroModel> {
    known_values() + lights(8)
}

impl MacroSpec {
    /// A macro that stands for a constant initializer of the given type.
    pub fn initializer(name: &str, return_type: &str) -> (spec: MacroSpec)
        ensures
            spec@ == initializer_macro(name@, return_type@),
    {
        MacroSpec {
            name: name.to_owned(),
            return_type: return_type.to_owned(),
            argument_list: None,
            requires_definition_guard: false,
            constant_evaluable: true,
            fallback_literal: None,
        }
    }

    /// A macro that maps numbers to a peripheral of the given type.
    pub fn peripheral(name: &str, return_type: &str, arguments: &str) -> (spec: MacroSpec)
        ensures
            spec@ == peripheral_macro(name@, return_type@, arguments@),
    {
        MacroSpec {
            name: name.to_owned(),
            return_type: return_type.to_owned(),
            argument_list: Some(arguments.to_owned()),
            requires_definition_guard: false,
            constant_evaluable: false,
            fallback_literal: None,
        }
    }

    /// A macro that is a statement.
    pub fn statement(name: String) -> (spec: MacroSpec)
        ensures
            spec@ == statement_macro(name@),
    {
        MacroSpec {
            name,
            return_type: "void".to_owned(),
            argument_list: None,
            requires_definition_guard: false,
            constant_evaluable: false,
            fallback_literal: None,
        }
    }

    /// A macro that only tells whether it is defined.
    pub fn presence(name: String) -> (spec: MacroSpec)
        ensures
            spec@ == presence_macro(name@),
    {
        MacroSpec {
            name,
            return_type: "int".to_owned(),
            argument_list: None,
            requires_definition_guard: true,
            constant_evaluable: true,
            fallback_literal: Some("-1".to_owned()),
        }
    }

    /// The table of the macros of the target system that get a wrapper.
    pub fn known() -> (table: Vec<MacroSpec>)
        ensures
            macros_view(table@) == known_macros(),
    {
        let mut table: Vec<MacroSpec> = Vec::new();
        table.push(MacroSpec::initializer("SOCK_IPV4_EP_ANY", "sock_udp_ep_t"));
        table.push(MacroSpec::initializer("SOCK_IPV6_EP_ANY", "sock_udp_ep_t"));
        table.push(MacroSpec::initializer("MUTEX_INIT", "mutex_t"));
        table.push(MacroSpec::initializer("STATUS_NOT_FOUND", "thread_status_t"));
        table.push(MacroSpec::peripheral("GPIO_PIN", "gpio_t", "unsigned port, unsigned pin"));
        table.push(MacroSpec::peripheral("I2C_DEV", "i2c_t", "unsigned num"));
        table.push(MacroSpec::peripheral("SPI_DEV", "spi_t", "unsigned num"));
        table.push(MacroSpec::peripheral("UART_DEV", "uart_t", "unsigned num"));
        table.push(MacroSpec::peripheral("PWM_DEV", "pwm_t", "unsigned num"));
        table.push(MacroSpec::peripheral("ADC_LINE", "adc_t", "unsigned num"));
        table.push(MacroSpec::peripheral("TIMER_DEV", "timer_t", "unsigned num"));
        table.push(MacroSpec::peripheral("QDEC_DEV", "qdec_t", "unsigned num"));
        table.push(MacroSpec::peripheral("DAC_LINE", "dac_t", "unsigned num"));
        assert(macros_view(table@) =~= known_values());
        let mut index: u8 = 0;
        while index < 8
            invariant
                index <= 8,
                macros_view(table@) == known_values() + lights(index as int),
            decreases 8 - index,
        {
            let ghost before = macros_view(table@);
            let on = light(index, "_ON");
            let off = light(index, "_OFF");
            let toggle = light(index, "_TOGGLE");
            let present = light(index, "_IS_PRESENT");
            table.push(MacroSpec::statement(on));
            table.push(MacroSpec::statement(off));
            table.push(MacroSpec::statement(toggle));
            table.push(MacroSpec::presence(present));
            assert(macros_view(table@) =~= before + light_macros(index as int));
            assert((known_values() + lights(index as int)) + light_macros(index as int)
                =~= known_values() + lights(index as int + 1));
            index += 1;
        }
        table
    }
}

/// Writes the name of a macro of the light with the given number.
fn light(index: u8, action: &str) -> (name: String)
    ensures
        name@ == light_name(index as int, action@),
{
    let digit = if index == 0 {
        '0'
    } else if index == 1 {
        '1'
    } else if index == 2 {
        '2'
    } else if index == 3 {
        '3'
    } else if index == 4 {
        '4'
    } else if index == 5 {
        '5'
    } else if index == 6 {
        '6'
    } else {
        '7'
    };
    let mut name = "LED".to_owned();
    name.push(digit);
    name.append(action);
    name
}

/// Appends to the header the wrapper of every macro of the known table.
/// This cannot fail: every parameter of the table has a name.
pub fn materialize_known(header: &str) -> (text: String)
    ensures
        materialized(header@, known_macros()) == Some(text@),
{
    match materialize(header, &MacroSpec::known()) {
        Ok(text) => text,
        Err(_) => {
            proof {
                lemma_known_macros_materialize(header@);
            }
            unreached()
        },
    }
}

} // verus!
