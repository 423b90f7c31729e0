use vstd::prelude::*;
use crate::auth::User;
use crate::permissions::{entity_type_placeholder, Permission};
use crate::schema::Table;
use crate::table_data::{Query, Script};

verus! {

/// The channel of one entity or of the rows of one table.
#[derive(Debug)]
pub enum Defaults {
    Table(String),
    Query(String),
    Script(String),
    TableData(String),
}

/// The channel that lists the subscribers of another channel.
#[derive(Debug)]
pub enum Sub {
    Subscribers(Defaults),
}

/// A channel that users subscribe to.
#[derive(Debug)]
pub enum Channels {
    Defaults(Defaults),
    Subscribers(Sub),
}

/// The kinds of channels of entities and table rows.
#[derive(Clone, Copy, Debug, PartialEq, Eq, Structural)]
pub enum ChannelKind {
    Table,
    Query,
    Script,
    TableData,
}

impl Defaults {
    /// The kind of the channel.
    pub open spec fn kind(self) -> ChannelKind {
        match self {
            Defaults::Table(_) => ChannelKind::Table,
            Defaults::Query(_) => ChannelKind::Query,
            Defaults::Script(_) => ChannelKind::Script,
            Defaults::TableData(_) => ChannelKind::TableData,
        }
    }

    /// The name of the entity or table of the channel.
    pub open spec fn name(self) -> String {
        match self {
            Defaults::Table(n) => n,
            Defaults::Query(n) => n,
            Defaults::Script(n) => n,
            Defaults::TableData(n) => n,
        }
    }

    /// The permission that reading the channel asks for: reading the entity,
    /// or reading the rows of the table.
    pub fn required_permission(&self) -> (r: Permission)
        ensures
            match *self {
                Defaults::TableData(name) => r == (Permission::GetTableData { table_name: name }),
                _ => r matches Permission::GetEntity { entity_type, entity_name } && entity_type@
                    == entity_type_placeholder() && entity_name == self.name(),
            },
    {
        match self {
            Defaults::Table(name) => Permission::read_entity::<Table>(name.clone()),
            Defaults::Query(name) => Permission::read_entity::<Query>(name.clone()),
            Defaults::Script(name) => Permission::read_entity::<Script>(name.clone()),
            Defaults::TableData(name) => Permission::get_table_data(name.clone()),
        }
    }
}

/// An entity whose changes go out on a channel of its own.
pub trait GetEntityChannel {
    spec fn channel_kind() -> ChannelKind;

    fn entity_channel(name: &String) -> (r: Defaults)
        ensures
            r.kind() == Self::channel_kind(),
            r.name() == *name,
    ;
}

impl GetEntityChannel for Table {
    open spec fn channel_kind() -> ChannelKind {
        ChannelKind::Table
    }

    fn entity_channel(name: &String) -> (r: Defaults) {
        Defaults::Table(name.clone())
    }
}

impl GetEntityChannel for Query {
    open spec fn channel_kind() -> ChannelKind {
        ChannelKind::Query
    }

    fn entity_channel(name: &String) -> (r: Defaults) {
        Defaults::Query(name.clone())
    }
}

impl GetEntityChannel for Script {
    open spec fn channel_kind() -> ChannelKind {
        ChannelKind::Script
    }

    fn entity_channel(name: &String) -> (r: Defaults) {
        Defaults::Script(name.clone())
    }
}

impl Channels {
    /// The channel of the entity `name` of type `T`.
    pub fn entity<T: GetEntityChannel>(name: &String) -> (r: Channels)
        ensures
            r matches Channels::Defaults(d) && d.kind() == T::channel_kind() && d.name() == *name,
    {
        Channels::Defaults(T::entity_channel(name))
    }

    /// The permission that reading the channel asks for; the subscribers of
    /// a channel ask for what the channel itself asks for.
    pub fn required_permission(&self) -> (r: Permission)
        ensures
            match *self {
                Channels::Defaults(d) => match d {
                    Defaults::TableData(name) => r == (Permission::GetTableData { table_name: name }),
                    _ => r matches Permission::GetEntity { entity_type, entity_name } && entity_type@
                        == entity_type_placeholder() && entity_name == d.name(),
                },
                Channels::Subscribers(Sub::Subscribers(d)) => match d {
                    Defaults::TableData(name) => r == (Permission::GetTableData { table_name: name }),
                    _ => r matches Permission::GetEntity { entity_type, entity_name } && entity_type@
                        == entity_type_placeholder() && entity_name == d.name(),
                },
            },
    {
        match self {
            Channels::Defaults(d) => d.required_permission(),
            Channels::Subscribers(Sub::Subscribers(d)) => d.required_permission(),
        }
    }
}

/// A user following a channel.
#[derive(Debug)]
pub struct Subscription {
    pub user: User,
    pub channel: Channels,
}

/// What a subscription request did.
#[derive(Debug)]
pub enum SubscriptionResult {
    Subscribed(Subscription),
    Unsubscribed(Subscription),
    UnsubscribedAll,
}

/// Why publishing to a channel failed.
#[derive(Debug, Clone, Copy, PartialEq, Eq, Structural)]
pub enum BroadcastError {
    SerializationError,
    Unknown,
}

/// Publishes the results of actions to their channels.
#[derive(Debug)]
pub struct Broadcaster {}

} // verus!
