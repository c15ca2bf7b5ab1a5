use vstd::prelude::*;
use vstd::string::StrSliceExecFns;

use crate::raster::Raster;
use crate::raster::raster_like;
use crate::textenc::push_dec_u64;
use crate::textenc::spec_dec_digits;

verus! {

/// How many times a fresh daemon connection is attempted before the plugin
/// is disabled for the session (twenty tries at a fixed backoff, about ten
/// seconds in all).
pub const DAEMON_CONNECT_ATTEMPTS: u8 = 20;

/// The state of the control connection to a daemon plugin.
#[derive(PartialEq, Eq, Structural, Clone, Copy, Debug)]
pub enum DaemonLink {
    /// Not connected yet; this many attempts are still allowed.
    Connecting { attempts_left: u8 },
    /// The control channel is up.
    Connected,
    /// The attempts ran out; the plugin is disabled for the session.
    Failed,
}

/// The dimensions of the image most recently handed to the daemon, which fix
/// the size of the mask segment a click answers through.
#[derive(PartialEq, Eq, Structural, Clone, Copy, Debug)]
pub struct ActiveImage {
    pub width: u32,
    pub height: u32,
}

/// What the supervisor should do after a connection attempt.
pub enum ConnectStep {
    /// Connected; nothing was waiting.
    Ready,
    /// Connected; this raster was buffered while disconnected and must be
    /// sent to the daemon now.
    SendPending(Raster),
    /// Not connected yet; wait the fixed backoff and try again.
    Retry,
    /// The attempt budget is spent; kill and forget the daemon.
    GiveUp,
}

/// The decision core of a persistent daemon plugin session: tracks the
/// connection handshake with its bounded retries, buffers the image handed
/// over while the link is still down, and knows when a click request may be
/// sent. All socket, process and shared-memory work is done by the caller
/// between decisions.
pub struct DaemonSession {
    pub link: DaemonLink,
    pub pending: Option<Raster>,
    pub active: Option<ActiveImage>,
}

impl DaemonSession {
    pub open spec fn wf(&self) -> bool {
        match self.link {
            DaemonLink::Connecting { attempts_left } => attempts_left <= DAEMON_CONNECT_ATTEMPTS,
            _ => true,
        }
    }

    /// A fresh session, about to make its first connection attempt.
    pub fn new() -> (out: DaemonSession)
        ensures
            out.wf(),
            out.link == (DaemonLink::Connecting { attempts_left: DAEMON_CONNECT_ATTEMPTS }),
            out.pending is None,
            out.active is None,
    {
        DaemonSession {
            link: DaemonLink::Connecting { attempts_left: DAEMON_CONNECT_ATTEMPTS },
            pending: None,
            active: None,
        }
    }

    /// Records the outcome of one connection attempt. Success brings the
    /// link up and releases the buffered image, if one was waiting, to be
    /// sent; failure spends one attempt, and spending the last one disables
    /// the plugin for the session.
    pub fn on_connect_attempt(&mut self, connected: bool) -> (step: ConnectStep)
        requires
            old(self).wf(),
            old(self).link matches DaemonLink::Connecting { attempts_left } && attempts_left > 0,
        ensures
            final(self).wf(),
            final(self).active == old(self).active,
            connected ==> final(self).link == DaemonLink::Connected && final(self).pending is None,
            connected ==> (old(self).pending matches Some(p) ==> (step
                matches ConnectStep::SendPending(q) && raster_like(q, p))),
            connected && old(self).pending is None ==> step is Ready,
            !connected ==> final(self).pending == old(self).pending && ({
                let left = old(self).link->Connecting_attempts_left;
                if left == 1 {
                    final(self).link == DaemonLink::Failed && step is GiveUp
                } else {
                    final(self).link == (DaemonLink::Connecting { attempts_left: (left - 1) as u8 })
                        && step is Retry
                }
            }),
    {
        if connected {
            self.link = DaemonLink::Connected;
            let waiting = self.pending.take();
            match waiting {
                Some(p) => ConnectStep::SendPending(p),
                None => ConnectStep::Ready,
            }
        } else {
            let left = match self.link {
                DaemonLink::Connecting { attempts_left } => attempts_left,
                _ => 1,
            };
            if left == 1 {
                self.link = DaemonLink::Failed;
                ConnectStep::GiveUp
            } else {
                self.link = DaemonLink::Connecting { attempts_left: left - 1 };
                ConnectStep::Retry
            }
        }
    }

    /// Hands the raster on display to the daemon: if the link is up the
    /// caller must send it now (true); otherwise it is buffered, replacing
    /// anything already waiting, and goes out when the link comes up.
    pub fn set_interactive_image(&mut self, raster: Raster) -> (send_now: bool)
        requires
            old(self).wf(),
        ensures
            final(self).wf(),
            final(self).link == old(self).link,
            final(self).active == old(self).active,
            send_now == (old(self).link is Connected),
            send_now ==> final(self).pending == old(self).pending,
            !send_now ==> (final(self).pending matches Some(p) && raster_like(p, raster)),
    {
        match self.link {
            DaemonLink::Connected => true,
            _ => {
                self.pending = Some(raster);
                false
            },
        }
    }

    /// Records that an image of the given size was copied into a fresh
    /// shared segment and acknowledged by the daemon: clicks may now refer
    /// to it.
    pub fn record_image_sent(&mut self, width: u32, height: u32)
        requires
            old(self).wf(),
        ensures
            final(self).wf(),
            final(self).link == old(self).link,
            final(self).pending == old(self).pending,
            final(self).active == Some(ActiveImage { width, height }),
    {
        self.active = Some(ActiveImage { width, height });
    }

    /// Whether a click at (x, y) can be sent, and against which image: it
    /// needs an up link and an image the daemon already holds. The returned
    /// dimensions tell the caller how large a mask to read back.
    pub fn click_target(&self) -> (r: Option<ActiveImage>)
        requires
            self.wf(),
        ensures
            self.link is Connected ==> (self.active matches Some(a) ==> r == Some(a)),
            !(self.link is Connected) || self.active is None ==> r is None,
    {
        match self.link {
            DaemonLink::Connected => self.active,
            _ => None,
        }
    }
}

/// The bytes of one character, for ASCII content; a character beyond ASCII
/// is truncated to its low byte, so protocol strings must be ASCII.
pub open spec fn ascii_bytes_of(s: Seq<char>) -> Seq<u8> {
    s.map_values(|c: char| c as u8)
}

/// Appends the bytes of an ASCII string to a byte frame.
fn push_ascii(out: &mut Vec<u8>, s: &str)
    ensures
        final(out)@ == old(out)@ + ascii_bytes_of(s@),
{
    let n = s.unicode_len();
    let mut i: usize = 0;
    while i < n
        invariant
            n == s@.len(),
            i <= n,
            out@ == old(out)@ + ascii_bytes_of(s@).subrange(0, i as int),
        decreases n - i,
    {
        let c = s.get_char(i);
        #[verifier::truncate]
        let b = c as u8;
        out.push(b);
        proof {
            assert(out@ =~= old(out)@ + ascii_bytes_of(s@).subrange(0, i + 1));
        }
        i = i + 1;
    }
    proof {
        assert(ascii_bytes_of(s@).subrange(0, n as int) =~= ascii_bytes_of(s@));
    }
}

/// The newline-delimited JSON control line that hands the daemon a fresh
/// image: its shared segment's name and its dimensions. Bulk pixels travel
/// through the segment, never through the socket.
pub open spec fn spec_set_image_frame(shm_name: Seq<char>, width: u32, height: u32) -> Seq<u8> {
    ascii_bytes_of("{\"action\":\"set_image\",\"shm_name\":\""@) + ascii_bytes_of(shm_name)
        + ascii_bytes_of("\",\"width\":"@) + spec_dec_digits(width as int) + ascii_bytes_of(
        ",\"height\":"@,
    ) + spec_dec_digits(height as int) + ascii_bytes_of("}"@) + seq![10u8]
}

/// Builds the `set_image` control line.
pub fn set_image_frame(shm_name: &str, width: u32, height: u32) -> (frame: Vec<u8>)
    ensures
        frame@ == spec_set_image_frame(shm_name@, width, height),
{
    let mut frame: Vec<u8> = Vec::new();
    push_ascii(&mut frame, "{\"action\":\"set_image\",\"shm_name\":\"");
    push_ascii(&mut frame, shm_name);
    push_ascii(&mut frame, "\",\"width\":");
    push_dec_u64(width as u64, &mut frame);
    push_ascii(&mut frame, ",\"height\":");
    push_dec_u64(height as u64, &mut frame);
    push_ascii(&mut frame, "}");
    frame.push(10);
    proof {
        assert(frame@ =~= spec_set_image_frame(shm_name@, width, height));
    }
    frame
}

/// The newline-delimited JSON control line that sends an interactive click:
/// the mask segment's name and the click position.
pub open spec fn spec_click_frame(shm_name: Seq<char>, x: u32, y: u32) -> Seq<u8> {
    ascii_bytes_of("{\"action\":\"click\",\"shm_name\":\""@) + ascii_bytes_of(shm_name)
        + ascii_bytes_of("\",\"x\":"@) + spec_dec_digits(x as int) + ascii_bytes_of(",\"y\":"@)
        + spec_dec_digits(y as int) + ascii_bytes_of("}"@) + seq![10u8]
}

/// Builds the `click` control line.
pub fn click_frame(shm_name: &str, x: u32, y: u32) -> (frame: Vec<u8>)
    ensures
        frame@ == spec_click_frame(shm_name@, x, y),
{
    let mut frame: Vec<u8> = Vec::new();
    push_ascii(&mut frame, "{\"action\":\"click\",\"shm_name\":\"");
    push_ascii(&mut frame, shm_name);
    push_ascii(&mut frame, "\",\"x\":");
    push_dec_u64(x as u64, &mut frame);
    push_ascii(&mut frame, ",\"y\":");
    push_dec_u64(y as u64, &mut frame);
    push_ascii(&mut frame, "}");
    frame.push(10);
    proof {
        assert(frame@ =~= spec_click_frame(shm_name@, x, y));
    }
    frame
}

/// The shared-memory sizes one image exchange needs: four bytes per pixel
/// for the image segment and one byte per pixel for the mask segment, or
/// nothing if the image is too large for the address space.
pub fn shm_sizes(width: u32, height: u32) -> (r: Option<(usize, usize)>)
    ensures
        r matches Some(s) ==> 4 * (width as int) * (height as int) <= usize::MAX && s.0 == 4 * (
        width as int) * (height as int) && s.1 == (width as int) * (height as int),
        r is None ==> 4 * (width as int) * (height as int) > usize::MAX,
{
    proof {
        assert((width as int) * (height as int) <= u64::MAX) by (nonlinear_arith)
            requires
                width <= u32::MAX,
                height <= u32::MAX,
        ;
        assert(4 * ((width as int) * (height as int)) == 4 * (width as int) * (height as int))
            by (nonlinear_arith);
    }
    let px: u128 = (width as u128) * (height as u128);
    let total: u128 = 4 * px;
    if total <= (usize::MAX as u128) {
        Some((total as usize, px as usize))
    } else {
        None
    }
}

/// Judges the handshake line a one-shot subprocess decoder prints before the
/// pixel exchange: the decode goes ahead only if the reported status is
/// `ready` or `ok` and the announced byte count is exactly four bytes per
/// reported pixel and fits in memory. The accepted size is the shared
/// segment to allocate; anything else is a decode failure.
pub fn handshake_plan(status: &str, width: u32, height: u32, required_bytes: u64) -> (r: Option<
    usize,
>)
    ensures
        r matches Some(size) ==> (status@ == "ready"@ || status@ == "ok"@) && required_bytes == 4
            * (width as int) * (height as int) && required_bytes <= usize::MAX && size
            == required_bytes,
        r is None ==> !(status@ == "ready"@ || status@ == "ok"@) || required_bytes != 4 * (
        width as int) * (height as int) || required_bytes > usize::MAX,
{
    if !(crate::fs_scan::str_eq(status, "ready") || crate::fs_scan::str_eq(status, "ok")) {
        return None;
    }
    proof {
        assert((width as int) * (height as int) <= u64::MAX && 4 * ((width as int) * (
        height as int)) == 4 * (width as int) * (height as int)) by (nonlinear_arith)
            requires
                width <= u32::MAX,
                height <= u32::MAX,
        ;
    }
    let px: u128 = (width as u128) * (height as u128);
    let expected: u128 = 4 * px;
    if (required_bytes as u128) == expected && required_bytes <= (usize::MAX as u64) {
        Some(required_bytes as usize)
    } else {
        None
    }
}

/// Takes the pixels a decoder wrote into a shared segment as a raster,
/// provided the segment holds exactly four bytes per pixel; anything else is
/// a decode failure.
pub fn raster_from_segment(bytes: Vec<u8>, width: u32, height: u32) -> (r: Option<Raster>)
    ensures
        bytes@.len() == 4 * (width as int) * (height as int) ==> (r matches Some(t) && t.wf()
            && t.width == width && t.height == height && t.data@ == bytes@),
        bytes@.len() != 4 * (width as int) * (height as int) ==> r is None,
{
    proof {
        assert((width as int) * (height as int) <= u64::MAX && 4 * ((width as int) * (
        height as int)) == 4 * (width as int) * (height as int)) by (nonlinear_arith)
            requires
                width <= u32::MAX,
                height <= u32::MAX,
        ;
    }
    let px: u128 = (width as u128) * (height as u128);
    let expected: u128 = 4 * px;
    if (bytes.len() as u128) == expected {
        Some(Raster { width, height, data: bytes })
    } else {
        None
    }
}

} // verus!
