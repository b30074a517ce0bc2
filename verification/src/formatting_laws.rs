use vstd::prelude::*;
use crate::format_cache::DisplayOptions;
use crate::formatting::{formatted, ConfigView};
use crate::message::{FilterType, MessageView};
use crate::widgets::ChatPane;

verus! {

/// The lines depend on nothing but the messages and the configuration:
/// the same messages under the same configuration give the same lines.
pub proof fn law_formatting_is_deterministic(
    messages: Seq<MessageView>,
    config: ConfigView,
    other_messages: Seq<MessageView>,
    other_config: ConfigView,
)
    requires
        messages == other_messages,
        config == other_config,
    ensures
        formatted(messages, config) == formatted(other_messages, other_config),
{
}

/// A configuration from which a filter is taken away again gives the lines
/// that it gave without the filter.
pub proof fn law_clearing_a_filter_restores_the_lines(
    messages: Seq<MessageView>,
    config: ConfigView,
    kind: FilterType,
    value: Option<Seq<char>>,
)
    ensures
        formatted(messages, config.filtered(kind, value).unfiltered()) == formatted(
            messages,
            config.unfiltered(),
        ),
{
}

/// A pane without filter that gets a filter and loses it again shows the
/// lines that it showed before.
pub proof fn law_pane_filter_round_trip(
    pane: ChatPane,
    kind: FilterType,
    value: Option<String>,
    width: usize,
    options: DisplayOptions,
    aliases: Map<i64, Seq<char>>,
)
    requires
        pane.filter_type.is_none(),
        pane.filter_value.is_none(),
    ensures
        pane.with_filter(Some(kind), value).with_filter(None, None).lines(width, options, aliases)
            == pane.lines(width, options, aliases),
{
}

/// What a pane shows does not depend on what it remembers: a pane with
/// its memory emptied shows the same lines.
pub proof fn law_lines_do_not_depend_on_the_cache(
    pane: ChatPane,
    width: usize,
    options: DisplayOptions,
    aliases: Map<i64, Seq<char>>,
)
    ensures
        (ChatPane {
            format_cache: crate::format_cache::FormatCache { entry: None },
            ..pane
        }).lines(width, options, aliases) == pane.lines(width, options, aliases),
{
}

} // verus!
