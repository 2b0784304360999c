//! Movie playback that the host performs for the engine.

use vstd::prelude::*;

use crate::text;

verus! {

/// The graph that a movie layer is drawn to.
pub const MOVIE_GRAPH_ID: u16 = 4063;

#[derive(Debug, Clone, Copy, PartialEq, Eq, Structural)]
pub enum MovieMode {
    ModalWithAudio,
    LayerNoAudio,
}

/// A request to play a movie.
#[derive(Debug)]
pub struct HostMovieCommand {
    pub resource_uri: String,
    pub byte_len: u64,
    pub mode: MovieMode,
    pub screen_w: u32,
    pub screen_h: u32,
}

#[verifier::ext_equal]
pub struct MovieCommandView {
    pub resource_uri: Seq<char>,
    pub byte_len: u64,
    pub mode: MovieMode,
    pub screen_w: u32,
    pub screen_h: u32,
}

impl HostMovieCommand {
    pub open spec fn view(&self) -> MovieCommandView {
        MovieCommandView {
            resource_uri: self.resource_uri@,
            byte_len: self.byte_len,
            mode: self.mode,
            screen_w: self.screen_w,
            screen_h: self.screen_h,
        }
    }
}

impl HostMovieCommand {
    pub(crate) fn copied(&self) -> (r: Self)
        ensures
            r@ == self@,
    {
        HostMovieCommand {
            resource_uri: text::owned(self.resource_uri.as_str()),
            byte_len: self.byte_len,
            mode: self.mode,
            screen_w: self.screen_w,
            screen_h: self.screen_h,
        }
    }
}

pub open spec fn movie_views(s: Seq<HostMovieCommand>) -> Seq<MovieCommandView> {
    Seq::new(s.len(), |i: int| s[i]@)
}

/// A movie was asked for without a name or without content.
#[derive(Debug, Clone, Copy, PartialEq, Eq, Structural)]
pub struct EmptyMovieResource;

impl EmptyMovieResource {
    pub fn to_text(&self) -> (r: &'static str)
        ensures
            r@ == "hosted movie resource is empty"@,
    {
        "hosted movie resource is empty"
    }
}

/// Whether a movie plays, and the requests that the host has not seen yet.
#[derive(Debug)]
pub struct VideoPlayerManager {
    pub playing: bool,
    pub loaded: bool,
    pub modal: bool,
    pub pending_commands: Vec<HostMovieCommand>,
}

#[verifier::ext_equal]
pub struct VideoView {
    pub playing: bool,
    pub loaded: bool,
    pub modal: bool,
    pub pending: Seq<MovieCommandView>,
}

/// No movie and no request.
pub open spec fn idle_video() -> VideoView {
    VideoView { playing: false, loaded: false, modal: false, pending: Seq::empty() }
}

impl VideoView {
    pub open spec fn started(self, command: MovieCommandView) -> VideoView {
        VideoView {
            playing: true,
            loaded: true,
            modal: command.mode == MovieMode::ModalWithAudio,
            pending: self.pending.push(command),
        }
    }

    pub open spec fn stopped(self) -> VideoView {
        VideoView { playing: false, loaded: false, modal: false, pending: self.pending }
    }
}

impl Default for VideoPlayerManager {
    fn default() -> (r: Self)
        ensures
            r@ == idle_video(),
    {
        let r = VideoPlayerManager {
            playing: false,
            loaded: false,
            modal: false,
            pending_commands: Vec::new(),
        };
        assert(r@ =~= idle_video());
        r
    }
}

impl VideoPlayerManager {
    pub open spec fn view(&self) -> VideoView {
        VideoView {
            playing: self.playing,
            loaded: self.loaded,
            modal: self.modal,
            pending: movie_views(self.pending_commands@),
        }
    }

    pub fn new() -> (r: Self)
        ensures
            r@ == idle_video(),
    {
        VideoPlayerManager::default()
    }

    pub(crate) fn copied(&self) -> (r: Self)
        ensures
            r@ == self@,
    {
        let mut pending_commands: Vec<HostMovieCommand> = Vec::new();
        let mut i: usize = 0;
        while i < self.pending_commands.len()
            invariant
                i <= self.pending_commands@.len(),
                movie_views(pending_commands@) =~= self@.pending.subrange(0, i as int),
            decreases self.pending_commands@.len() - i,
        {
            let ghost before = movie_views(pending_commands@);
            let command = self.pending_commands[i].copied();
            pending_commands.push(command);
            assert(movie_views(pending_commands@) =~= before.push(command@));
            i = i + 1;
        }
        let r = VideoPlayerManager {
            playing: self.playing,
            loaded: self.loaded,
            modal: self.modal,
            pending_commands,
        };
        assert(r@ =~= self@);
        r
    }

    pub fn is_playing(&self) -> (r: bool)
        ensures
            r == self@.playing,
    {
        self.playing
    }

    pub fn is_loaded(&self) -> (r: bool)
        ensures
            r == self@.loaded,
    {
        self.loaded
    }

    pub fn is_modal_active(&self) -> (r: bool)
        ensures
            r == (self@.playing && self@.modal),
    {
        self.playing && self.modal
    }

    /// Queues a request.
    pub fn queue(&mut self, command: HostMovieCommand)
        ensures
            final(self)@ == old(self)@.started(command@),
    {
        self.playing = true;
        self.loaded = true;
        self.modal = match command.mode {
            MovieMode::ModalWithAudio => true,
            MovieMode::LayerNoAudio => false,
        };
        self.pending_commands.push(command);
        assert(self@ =~= old(self)@.started(command@));
    }

    /// Queues a movie that is known by its path alone.
    pub fn start(&mut self, movie_path: &str, mode: MovieMode, screen_w: u32, screen_h: u32)
        ensures
            final(self)@ == old(self)@.started(
                MovieCommandView {
                    resource_uri: movie_path@,
                    byte_len: 0,
                    mode,
                    screen_w,
                    screen_h,
                },
            ),
    {
        self.start_from_bytes(movie_path, 0, mode, screen_w, screen_h);
    }

    /// Queues a movie whose `byte_len` bytes the engine has read.
    pub fn start_from_bytes(
        &mut self,
        movie_name: &str,
        byte_len: usize,
        mode: MovieMode,
        screen_w: u32,
        screen_h: u32,
    )
        ensures
            final(self)@ == old(self)@.started(
                MovieCommandView {
                    resource_uri: movie_name@,
                    byte_len: byte_len as u64,
                    mode,
                    screen_w,
                    screen_h,
                },
            ),
    {
        self.queue(
            HostMovieCommand {
                resource_uri: text::owned(movie_name),
                byte_len: byte_len as u64,
                mode,
                screen_w,
                screen_h,
            },
        );
    }

    /// Queues a movie that the host owns; it needs a name and content.
    pub fn start_from_resource(
        &mut self,
        resource_uri: &str,
        byte_len: u64,
        mode: MovieMode,
        screen_w: u32,
        screen_h: u32,
    ) -> (r: Result<(), EmptyMovieResource>)
        ensures
            if resource_uri@.len() == 0 || byte_len == 0 {
                r is Err && final(self)@ == old(self)@
            } else {
                r is Ok && final(self)@ == old(self)@.started(
                    MovieCommandView {
                        resource_uri: resource_uri@,
                        byte_len,
                        mode,
                        screen_w,
                        screen_h,
                    },
                )
            },
    {
        let v = text::chars_of(resource_uri);
        if v.len() == 0 || byte_len == 0 {
            return Err(EmptyMovieResource);
        }
        self.queue(
            HostMovieCommand {
                resource_uri: text::owned(resource_uri),
                byte_len,
                mode,
                screen_w,
                screen_h,
            },
        );
        Ok(())
    }

    /// The host plays movies; a tick changes nothing here.
    pub fn tick(&mut self)
        ensures
            final(self)@ == old(self)@,
    {
    }

    /// Ends the movie; requests that the host has not seen stay.
    pub fn stop(&mut self)
        ensures
            final(self)@ == old(self)@.stopped(),
    {
        self.playing = false;
        self.loaded = false;
        self.modal = false;
    }

    /// Moves the requests to the end of `out`.
    pub fn drain_host_commands(&mut self, out: &mut Vec<HostMovieCommand>)
        ensures
            final(out)@ == old(out)@ + old(self).pending_commands@,
            final(self)@ == (VideoView { pending: Seq::empty(), ..old(self)@ }),
    {
        out.append(&mut self.pending_commands);
        assert(self@ =~= (VideoView { pending: Seq::empty(), ..old(self)@ }));
    }
}

/// A request reaches the host once: what is drained is what was queued, in order,
/// and a second drain gives nothing.
pub proof fn law_movie_requests_drain_once(video: VideoView, command: MovieCommandView)
    ensures
        ({
            let queued = video.started(command);
            let drained = VideoView { pending: Seq::empty(), ..queued };
            &&& queued.pending == video.pending.push(command)
            &&& drained.pending.len() == 0
            &&& drained.playing
            &&& !drained.stopped().playing && !drained.stopped().modal
        }),
{
}

/// A movie that starts plays, and is modal if and only if it comes with its sound; one that
/// ends neither plays nor is modal. What the host has yet to be asked stays in either case.
pub proof fn law_movies_play_until_they_end(video: VideoView, command: MovieCommandView)
    ensures
        !idle_video().playing && !idle_video().loaded && !idle_video().modal,
        idle_video().pending.len() == 0,
        video.started(command).playing && video.started(command).loaded,
        video.started(command).modal <==> command.mode is ModalWithAudio,
        video.started(command).pending.drop_last() == video.pending,
        video.started(command).pending.last() == command,
        !video.stopped().playing && !video.stopped().loaded && !video.stopped().modal,
        video.stopped().pending == video.pending,
{
    assert(video.started(command).pending.drop_last() =~= video.pending);
}

}
