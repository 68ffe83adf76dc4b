//! The state behind the dialog that edits the address and the port of a
//! connection.

use crate::decimal::{decimal_text, format_decimal, lemma_port_round_trip, parse_port, port_of};
use vstd::prelude::*;

verus! {

/// The two entries of the dialog, as the texts that stand in them.
#[derive(Debug)]
pub struct ConnectionConfig {
    address_entry: String,
    port_entry: String,
}

/// The texts of the two entries.
pub struct ConnectionView {
    pub address: Seq<char>,
    pub port_text: Seq<char>,
}

impl View for ConnectionConfig {
    type V = ConnectionView;

    closed spec fn view(&self) -> ConnectionView {
        ConnectionView { address: self.address_entry@, port_text: self.port_entry@ }
    }
}

impl Default for ConnectionConfig {
    /// The dialog with no address and with port 1.
    fn default() -> (config: ConnectionConfig)
        ensures
            config@.address == Seq::<char>::empty(),
            config@.port_text == decimal_text(1),
    {
        proof {
            reveal_strlit("");
        }
        let config = ConnectionConfig::new("", 1);
        assert(config@.address =~= Seq::<char>::empty());
        config
    }
}

impl ConnectionConfig {
    /// The dialog with the address in the one entry and the numeral of the
    /// port in the other.
    pub fn new(address: &str, port: u16) -> (config: ConnectionConfig)
        ensures
            config@.address == address@,
            config@.port_text == decimal_text(port as nat),
    {
        ConnectionConfig {
            address_entry: String::from_str(address),
            port_entry: format_decimal(port as u64),
        }
    }

    /// Replaces the text of the address entry.
    pub fn set_address(&mut self, text: &str)
        ensures
            final(self)@ == (ConnectionView { address: text@, ..old(self)@ }),
    {
        self.address_entry = String::from_str(text);
    }

    /// Replaces the text of the port entry, which need not write a port.
    pub fn set_port_text(&mut self, text: &str)
        ensures
            final(self)@ == (ConnectionView { port_text: text@, ..old(self)@ }),
    {
        self.port_entry = String::from_str(text);
    }

    /// The address as it stands in its entry, and the port that the port
    /// entry writes; port 0 where it writes none.
    pub fn get_config(&self) -> (config: (String, u32))
        ensures
            config.0@ == self@.address,
            config.1 == port_of(self@.port_text),
    {
        let port = parse_port(self.port_entry.as_str());
        (self.address_entry.clone(), port as u32)
    }
}

/// A dialog that was made for a port gives that port back, as long as the
/// port entry is left alone.
pub proof fn lemma_config_keeps_port(view: ConnectionView, port: u16)
    requires
        view.port_text == decimal_text(port as nat),
    ensures
        port_of(view.port_text) == port,
{
    lemma_port_round_trip(port);
}

} // verus!
