//! A connection between two tasks of the configuration graph.

use vstd::prelude::*;

verus! {

/// The mathematical content of a [`Cnx`].
pub struct CnxModel {
    /// The identifier of the task that sends.
    pub src: Seq<char>,
    /// The identifier of the task that receives.
    pub dst: Seq<char>,
    /// The name of the message type that flows.
    pub msg: Seq<char>,
    /// The number of messages gathered before the receiver runs, where set.
    pub batch: Option<u32>,
    /// Whether the messages are logged, where set.
    pub store: Option<bool>,
}

/// A connection between two tasks.
#[derive(Debug)]
pub struct Cnx {
    /// Source node id.
    src: String,
    /// Destination node id.
    dst: String,
    /// Message type exchanged between src and dst.
    pub msg: String,
    /// `None`: one message at a time. `Some(n)`: the receiver gets windows
    /// of `n` messages.
    pub batch: Option<u32>,
    /// Whether the messages are logged; left out, they are.
    pub store: Option<bool>,
}

impl View for Cnx {
    type V = CnxModel;

    closed spec fn view(&self) -> CnxModel {
        CnxModel {
            src: self.src@,
            dst: self.dst@,
            msg: self.msg@,
            batch: self.batch,
            store: self.store,
        }
    }
}

impl CnxModel {
    /// Whether the messages are logged: they are unless `store` says no.
    pub open spec fn stores(self) -> bool {
        self.store != Some(false)
    }
}

impl Cnx {
    /// A connection made of its parts.
    pub fn new(src: String, dst: String, msg: String, batch: Option<u32>, store: Option<bool>) -> (r:
        Self)
        ensures
            r@ == (CnxModel { src: src@, dst: dst@, msg: msg@, batch, store }),
    {
        Cnx { src, dst, msg, batch, store }
    }

    /// The identifier of the task that sends.
    pub fn get_src(&self) -> (r: &str)
        ensures
            r@ == self@.src,
    {
        self.src.as_str()
    }

    /// The identifier of the task that receives.
    pub fn get_dst(&self) -> (r: &str)
        ensures
            r@ == self@.dst,
    {
        self.dst.as_str()
    }

    /// The name of the message type that flows.
    pub fn get_msg(&self) -> (r: &str)
        ensures
            r@ == self@.msg,
    {
        self.msg.as_str()
    }

    /// The batch size, where one is set.
    pub fn get_batch(&self) -> (r: Option<u32>)
        ensures
            r == self@.batch,
    {
        self.batch
    }

    /// The logging choice, where one is set.
    pub fn get_store(&self) -> (r: Option<bool>)
        ensures
            r == self@.store,
    {
        self.store
    }

    /// Whether the messages are logged: they are unless `store` says no.
    pub fn stores(&self) -> (r: bool)
        ensures
            r == self@.stores(),
    {
        match self.store {
            Some(false) => false,
            _ => true,
        }
    }
}

impl Clone for Cnx {
    fn clone(&self) -> (r: Self)
        ensures
            r@ == self@,
    {
        Cnx {
            src: self.src.clone(),
            dst: self.dst.clone(),
            msg: self.msg.clone(),
            batch: self.batch,
            store: self.store,
        }
    }
}

} // verus!
