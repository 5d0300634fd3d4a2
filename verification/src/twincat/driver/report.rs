//! What the driver tells about itself.

use super::super::ads::error;
use super::super::ads::sumup::SumEntry;
use super::bulk;
use super::bulk::{TS_SYMBOL_HI, TS_SYMBOL_LO};
use super::{AdsShared, AmsPortState, BulkGroup, Feed, GroupView, ParamState, ParamView, SharedView};
use crate::text;
use vstd::prelude::*;
use vstd::string::*;

verus! {

/// The address and size of a bulk entry.
pub open spec fn entry_text(e: SumEntry) -> Seq<char> {
    " (G=0x"@ + error::hex(e.index_group as nat) + ", O=0x"@ + error::hex(e.index_offset as nat)
        + ", S="@ + text::decimal(e.size as nat) + ")"@
}

/// A number, filled up with spaces to five characters.
pub open spec fn right5(n: nat) -> Seq<char> {
    let d = text::decimal(n);
    if d.len() < 5 {
        Seq::new((5 - d.len()) as nat, |i: int| ' ') + d
    } else {
        d
    }
}

/// The line for a slot that holds a variable, unless the filter hides it.
pub open spec fn slot_lines(s: SharedView, g: GroupView, slot: int, filter: Seq<char>) -> Seq<
    Seq<char>,
> {
    match g.reasons[slot] {
        Some(r) => if super::has_param(s, r) && (filter.len() == 0 || text::occurs(
            super::param(s, r).info.address_str,
            filter,
        )) {
            seq![
                "  "@ + right5(slot as nat) + ": "@ + super::param(s, r).info.address_str
                    + entry_text(g.entries[slot]),
            ]
        } else {
            Seq::empty()
        },
        None => Seq::empty(),
    }
}

/// The lines for the variables in the slots from the third up to `n`.
pub open spec fn slots_lines(s: SharedView, g: GroupView, n: nat, filter: Seq<char>) -> Seq<
    Seq<char>,
>
    decreases n,
{
    if n <= 2 {
        Seq::empty()
    } else {
        slots_lines(s, g, (n - 1) as nat, filter) + slot_lines(s, g, n - 1, filter)
    }
}

/// The lines for one group. The clock is shown only without a filter.
pub open spec fn group_lines(s: SharedView, gi: int, filter: Seq<char>) -> Seq<Seq<char>> {
    let g = s.bulk[gi];
    let head = seq![
        "  bulk read #"@ + text::decimal(gi as nat) + " (AMS port "@ + text::decimal(
            g.ams_port as nat,
        ) + ", "@ + text::decimal((g.entries.len() - 2) as nat) + " variables):"@,
    ];
    let clock = if filter.len() == 0 {
        seq![
            "      0: "@ + TS_SYMBOL_HI@ + entry_text(g.entries[0]),
            "      1: "@ + TS_SYMBOL_LO@ + entry_text(g.entries[1]),
        ]
    } else {
        Seq::empty()
    };
    head + clock + slots_lines(s, g, g.reasons.len(), filter)
}

/// The lines for the first `n` groups.
pub open spec fn groups_lines(s: SharedView, n: nat, filter: Seq<char>) -> Seq<Seq<char>>
    decreases n,
{
    if n == 0 {
        Seq::empty()
    } else {
        groups_lines(s, (n - 1) as nat, filter) + group_lines(s, n - 1, filter)
    }
}

fn push_entry(out: &mut String, e: &SumEntry)
    ensures
        final(out)@ == old(out)@ + entry_text(*e),
{
    let ghost before = out@;
    out.append(" (G=0x");
    error::push_hex(out, e.index_group);
    out.append(", O=0x");
    error::push_hex(out, e.index_offset);
    out.append(", S=");
    text::push_decimal(out, e.size as u64);
    out.append(")");
    proof {
        assert(out@ =~= before + entry_text(*e));
    }
}

fn push_right5(out: &mut String, n: usize)
    ensures
        final(out)@ == old(out)@ + right5(n as nat),
{
    let ghost before = out@;
    let mut d = String::new();
    text::push_decimal(&mut d, n as u64);
    proof {
        assert(Seq::<char>::empty() + text::decimal(n as nat) =~= text::decimal(n as nat));
    }
    let chars = text::chars_of(d.as_str());
    let mut i: usize = chars.len();
    let ghost start = chars@.len();
    let ghost mut fill = Seq::<char>::empty();
    while i < 5
        invariant
            start == chars@.len(),
            start <= i,
            start < 5 ==> i <= 5,
            start >= 5 ==> i == start,
            fill == Seq::new((i - start) as nat, |k: int| ' '),
            out@ == before + fill,
        decreases 5 - i,
    {
        out.push(' ');
        proof {
            fill = fill.push(' ');
            assert(fill =~= Seq::new((i + 1 - start) as nat, |k: int| ' '));
            assert(out@ =~= before + fill);
        }
        i = i + 1;
    }
    out.append(d.as_str());
    proof {
        assert(out@ =~= before + right5(n as nat));
    }
}

fn push_line(out: &mut Vec<String>, line: String)
    ensures
        text::texts(final(out)@) == text::texts(old(out)@).push(line@),
{
    let ghost before = text::texts(out@);
    out.push(line);
    proof {
        assert(text::texts(out@) =~= before.push(line@));
    }
}

impl AdsShared {
    fn push_slot(&self, out: &mut Vec<String>, g: &BulkGroup, slot: usize, filter: &Vec<char>)
        requires
            2 <= slot < g@.reasons.len(),
        ensures
            text::texts(final(out)@) == text::texts(old(out)@) + slot_lines(
                self@,
                g@,
                slot as int,
                filter@,
            ),
    {
        let ghost before = text::texts(out@);
        let (entry, r): (SumEntry, usize) = g.variables[slot - 2];
        proof {
            bulk::lemma_group_is_whole(*g);
            assert(g@.entries[(slot - 2) + 2] == g.variables@[slot - 2].0);
        }
        match self.get(r) {
            Some(p) => {
                let shown: bool = filter.len() == 0 || {
                    let name = text::chars_of(p.info.address_str.as_str());
                    match text::find(name.as_slice(), filter.as_slice()) {
                        Some(_) => true,
                        None => false,
                    }
                };
                if shown {
                    let mut line = "  ".to_owned();
                    push_right5(&mut line, slot);
                    line.append(": ");
                    line.append(p.info.address_str.as_str());
                    push_entry(&mut line, &entry);
                    push_line(out, line);
                }
            },
            None => {},
        }
        proof {
            assert(text::texts(out@) =~= before + slot_lines(self@, g@, slot as int, filter@));
        }
    }

    /// The bulk reads, one line for each group and variable. `filter` is
    /// looked for in the addresses; an empty one shows everything.
    pub fn poll_info(&self, filter: &str) -> (r: Vec<String>)
        ensures
            text::texts(r@) == groups_lines(self@, self@.bulk.len(), filter@),
    {
        let wanted = text::chars_of(filter);
        let mut out: Vec<String> = Vec::new();
        let mut gi: usize = 0;
        proof {
            assert(text::texts(out@) =~= Seq::empty());
        }
        while gi < self.bulk.len()
            invariant
                gi <= self.bulk@.len(),
                wanted@ == filter@,
                text::texts(out@) == groups_lines(self@, gi as nat, filter@),
            decreases self.bulk@.len() - gi,
        {
            let ghost before = text::texts(out@);
            let g = &self.bulk[gi];
            proof {
                assert(self@.bulk[gi as int] == g@);
                use_type_invariant(g);
                bulk::lemma_group_is_whole(*g);
                assert(g@.entries[0] == g@.entries.take(2)[0]);
                assert(g@.entries[1] == g@.entries.take(2)[1]);
            }
            let mut line = "  bulk read #".to_owned();
            text::push_decimal(&mut line, gi as u64);
            line.append(" (AMS port ");
            text::push_decimal(&mut line, g.ams_port as u64);
            line.append(", ");
            text::push_decimal(&mut line, g.variables.len() as u64);
            line.append(" variables):");
            push_line(&mut out, line);
            if wanted.len() == 0 {
                let mut hi = "      0: ".to_owned();
                hi.append(TS_SYMBOL_HI);
                push_entry(&mut hi, &g.clock[0]);
                push_line(&mut out, hi);
                let mut lo = "      1: ".to_owned();
                lo.append(TS_SYMBOL_LO);
                push_entry(&mut lo, &g.clock[1]);
                push_line(&mut out, lo);
            }
            let ghost head = text::texts(out@);
            let mut slot: usize = 2;
            proof {
                assert(head + slots_lines(self@, g@, 2, filter@) =~= head);
            }
            while slot - 2 < g.variables.len()
                invariant
                    2 <= slot <= g.variables@.len() + 2,
                    g@.reasons.len() == g.variables@.len() + 2,
                    g.variables@.len() <= bulk::BULK_GROUP_MAX,
                    wanted@ == filter@,
                    text::texts(out@) == head + slots_lines(self@, g@, slot as nat, filter@),
                decreases g.variables@.len() + 2 - slot,
            {
                let ghost prior = text::texts(out@);
                self.push_slot(&mut out, g, slot, &wanted);
                proof {
                    assert(text::texts(out@) =~= head + slots_lines(
                        self@,
                        g@,
                        (slot + 1) as nat,
                        filter@,
                    ));
                }
                slot = slot + 1;
            }
            proof {
                assert(text::texts(out@) =~= before + group_lines(self@, gi as int, filter@));
            }
            gi = gi + 1;
        }
        out
    }
}

/// The word for a connection.
pub open spec fn link_word(connected: bool) -> Seq<char> {
    if connected {
        "connected"@
    } else {
        "disconnected"@
    }
}

/// The line for one AMS port.
pub open spec fn port_line(p: AmsPortState) -> Seq<char> {
    "  AMS port "@ + text::decimal(p.ams_port as nat) + ": "@ + p.state.name() + " ("@ + link_word(
        p.connected,
    ) + ")"@
}

/// The line for one parameter.
pub open spec fn param_line(reason: nat, p: ParamView) -> Seq<char> {
    "  ["@ + text::decimal(reason) + "] "@ + p.info.raw + " — PLC "@ + p.plc_type.name() + " ("@
        + text::decimal(p.plc_size as nat) + " bytes)"@ + match p.feed {
        Feed::Notification => ", notification"@,
        Feed::Bulk(_, _) => ", bulk read"@,
        Feed::Unfed => ""@,
    }
}

/// The lines for the first `n` AMS ports.
pub open spec fn port_lines(ports: Seq<AmsPortState>, n: nat) -> Seq<Seq<char>>
    decreases n,
{
    if n == 0 {
        Seq::empty()
    } else {
        port_lines(ports, (n - 1) as nat).push(port_line(ports[n - 1]))
    }
}

/// The lines for the parameters with a reason below `n`.
pub open spec fn param_lines(params: Seq<Option<ParamView>>, n: nat) -> Seq<Seq<char>>
    decreases n,
{
    if n == 0 {
        Seq::empty()
    } else {
        let before = param_lines(params, (n - 1) as nat);
        match params[n - 1] {
            Some(p) => before.push(param_line((n - 1) as nat, p)),
            None => before,
        }
    }
}

fn link_text(connected: bool) -> (r: &'static str)
    ensures
        r@ == link_word(connected),
{
    if connected {
        "connected"
    } else {
        "disconnected"
    }
}

fn param_text(reason: usize, p: &ParamState) -> (r: String)
    ensures
        r@ == param_line(reason as nat, p@),
{
    let mut line = "  [".to_owned();
    text::push_decimal(&mut line, reason as u64);
    line.append("] ");
    line.append(p.info.raw.as_str());
    line.append(" — PLC ");
    line.append(p.plc_type.as_str());
    line.append(" (");
    text::push_decimal(&mut line, p.plc_size as u64);
    line.append(" bytes)");
    line.append(
        match p.feed {
            Feed::Notification => ", notification",
            Feed::Bulk(_, _) => ", bulk read",
            Feed::Unfed => "",
        },
    );
    line
}

impl AdsShared {
    /// The lines that report on the port: itself, its AMS ports, and its
    /// parameters.
    pub fn report(&self, connected: bool) -> (r: Vec<String>)
        ensures
            text::texts(r@) == seq![
                "twincat-ads port "@ + self.cfg.port_name@ + ": PLC "@ + self.cfg.ip_addr@ + " ("@
                    + super::super::ads::defs::net_id_text(self.cfg.remote_net_id@)
                    + "), default AMS port "@ + text::decimal(self.cfg.ams_port as nat) + ", "@
                    + link_word(connected),
            ] + port_lines(self@.ports, self@.ports.len()) + param_lines(
                self@.params,
                self@.params.len(),
            ),
    {
        let mut out: Vec<String> = Vec::new();
        proof {
            assert(text::texts(out@) =~= Seq::empty());
        }
        let mut line = "twincat-ads port ".to_owned();
        line.append(self.cfg.port_name.as_str());
        line.append(": PLC ");
        line.append(self.cfg.ip_addr.as_str());
        line.append(" (");
        line.append(self.cfg.remote_net_id.text().as_str());
        line.append("), default AMS port ");
        text::push_decimal(&mut line, self.cfg.ams_port as u64);
        line.append(", ");
        line.append(link_text(connected));
        let ghost first = line@;
        push_line(&mut out, line);
        let ghost head = text::texts(out@);
        proof {
            assert(head =~= seq![first]);
            assert(head + port_lines(self@.ports, 0) =~= head);
        }
        let mut i: usize = 0;
        while i < self.ports.len()
            invariant
                i <= self.ports@.len(),
                text::texts(out@) == head + port_lines(self@.ports, i as nat),
            decreases self.ports@.len() - i,
        {
            let p = self.ports[i];
            let mut line = "  AMS port ".to_owned();
            text::push_decimal(&mut line, p.ams_port as u64);
            line.append(": ");
            line.append(p.state.as_str());
            line.append(" (");
            line.append(link_text(p.connected));
            line.append(")");
            push_line(&mut out, line);
            proof {
                assert(text::texts(out@) =~= head + port_lines(self@.ports, (i + 1) as nat));
            }
            i = i + 1;
        }
        let ghost ports = text::texts(out@);
        proof {
            assert(ports + param_lines(self@.params, 0) =~= ports);
        }
        i = 0;
        while i < self.params.len()
            invariant
                i <= self.params@.len(),
                text::texts(out@) == ports + param_lines(self@.params, i as nat),
            decreases self.params@.len() - i,
        {
            match self.get(i) {
                Some(p) => {
                    push_line(&mut out, param_text(i, p));
                },
                None => {},
            }
            proof {
                assert(text::texts(out@) =~= ports + param_lines(self@.params, (i + 1) as nat));
            }
            i = i + 1;
        }
        out
    }
}

/// A slot number is set to the right in five places.
pub proof fn law_slot_numbers_are_set_right(n: nat)
    ensures
        ({
            let d = text::decimal(n);
            let t = right5(n);
            &&& t.len() >= 5 && t.len() >= d.len() && (t.len() == 5 || t == d)
            &&& t.skip(t.len() - d.len()) == d
            &&& forall|i: int| 0 <= i < t.len() - d.len() ==> #[trigger] t[i] == ' '
        }),
{
    let d = text::decimal(n);
    assert(right5(n).skip(right5(n).len() - d.len()) =~= d);
}

/// The report names every bound parameter once, with its reason, link, type and
/// size, and how it is fed.
pub proof fn law_report_names_every_parameter(params: Seq<Option<ParamView>>, n: nat, r: int)
    requires
        n <= params.len(),
        0 <= r < n,
        params[r] is Some,
    ensures
        param_lines(params, n).contains(
            "  ["@ + text::decimal(r as nat) + "] "@ + params[r]->0.info.raw + " — PLC "@
                + params[r]->0.plc_type.name() + " ("@ + text::decimal(
                params[r]->0.plc_size as nat,
            ) + " bytes)"@ + match params[r]->0.feed {
                Feed::Notification => ", notification"@,
                Feed::Bulk(_, _) => ", bulk read"@,
                Feed::Unfed => ""@,
            },
        ),
        param_lines(params, n).len() <= n,
    decreases n,
{
    let line = param_line(r as nat, params[r]->0);
    let all = param_lines(params, n);
    let before = param_lines(params, (n - 1) as nat);
    lemma_param_lines_bound(params, n);
    if r < n - 1 {
        law_report_names_every_parameter(params, (n - 1) as nat, r);
        let k = choose|k: int| 0 <= k < before.len() && before[k] == line;
        assert(all[k] == line);
    } else {
        assert(all.last() == line);
        assert(all[all.len() - 1] == line);
    }
}

proof fn lemma_param_lines_bound(params: Seq<Option<ParamView>>, n: nat)
    requires
        n <= params.len(),
    ensures
        param_lines(params, n).len() <= n,
    decreases n,
{
    if n > 0 {
        lemma_param_lines_bound(params, (n - 1) as nat);
    }
}

/// The report shows every AMS port with its state and its link.
pub proof fn law_report_shows_every_port(ports: Seq<AmsPortState>, n: nat, i: int)
    requires
        n <= ports.len(),
        0 <= i < n,
    ensures
        port_lines(ports, n).len() == n,
        port_lines(ports, n)[i] == "  AMS port "@ + text::decimal(ports[i].ams_port as nat) + ": "@
            + ports[i].state.name() + " ("@ + (if ports[i].connected {
            "connected"@
        } else {
            "disconnected"@
        }) + ")"@,
    decreases n,
{
    lemma_port_lines_len(ports, n);
    lemma_port_lines_len(ports, (n - 1) as nat);
    if i < n - 1 {
        law_report_shows_every_port(ports, (n - 1) as nat, i);
    }
}

proof fn lemma_port_lines_len(ports: Seq<AmsPortState>, n: nat)
    requires
        n <= ports.len(),
    ensures
        port_lines(ports, n).len() == n,
    decreases n,
{
    if n > 0 {
        lemma_port_lines_len(ports, (n - 1) as nat);
    }
}

/// The report of the bulk read shows a variable only where its address holds the
/// text that is looked for, and every variable where none is.
pub proof fn law_report_filters_by_address(
    s: SharedView,
    g: GroupView,
    slot: int,
    r: usize,
    filter: Seq<char>,
)
    requires
        g.reasons[slot] == Some(r),
        super::has_param(s, r),
    ensures
        slot_lines(s, g, slot, filter).len() == if filter.len() == 0 || text::occurs(
            super::param(s, r).info.address_str,
            filter,
        ) {
            1nat
        } else {
            0
        },
        filter.len() == 0 ==> slot_lines(s, g, slot, filter)[0] == "  "@ + right5(slot as nat) + ": "@
            + super::param(s, r).info.address_str + (" (G=0x"@ + error::hex(
            g.entries[slot].index_group as nat,
        ) + ", O=0x"@ + error::hex(g.entries[slot].index_offset as nat) + ", S="@ + text::decimal(
            g.entries[slot].size as nat,
        ) + ")"@),
{
}

} // verus!
