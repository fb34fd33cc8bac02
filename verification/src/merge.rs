//! Reducing a file to one track of one segment, which is what enrichment and
//! staging work on, and joining several files into one.

use vstd::prelude::*;
use crate::model::{
    track_segment_views, track_views, waypoint_views, Gpx, GpxView, Track, TrackSegment,
    TrackSegmentView, TrackView, Waypoint, WaypointView,
};

verus! {

/// The points of the segments, one segment after the other.
pub open spec fn segments_points(segments: Seq<TrackSegmentView>) -> Seq<WaypointView>
    decreases segments.len(),
{
    if segments.len() == 0 {
        Seq::empty()
    } else {
        segments[0].points + segments_points(segments.drop_first())
    }
}

/// The points of the tracks, one track after the other.
pub open spec fn tracks_points(tracks: Seq<TrackView>) -> Seq<WaypointView>
    decreases tracks.len(),
{
    if tracks.len() == 0 {
        Seq::empty()
    } else {
        segments_points(tracks[0].segments) + tracks_points(tracks.drop_first())
    }
}

/// The points of the files, one file after the other.
pub open spec fn files_points(files: Seq<GpxView>) -> Seq<WaypointView>
    decreases files.len(),
{
    if files.len() == 0 {
        Seq::empty()
    } else {
        tracks_points(files[0].tracks) + files_points(files.drop_first())
    }
}

/// The file has one track, and that track one segment.
pub open spec fn single_track(gpx: GpxView) -> bool {
    gpx.tracks.len() == 1 && gpx.tracks[0].segments.len() == 1
}

/// The track that stands for all of `tracks`: the first of them, or a track
/// with nothing set where there is none, with the one segment `points`.
pub open spec fn merged_track(tracks: Seq<TrackView>, points: Seq<WaypointView>) -> TrackView {
    let head = if tracks.len() > 0 {
        tracks[0]
    } else {
        Track::blank()
    };
    TrackView { segments: seq![TrackSegmentView { points, extensions: None }], ..head }
}

/// The file with all its points in one segment of one track, in the order
/// in which the file holds them.
pub open spec fn merged(gpx: GpxView) -> GpxView {
    GpxView { tracks: seq![merged_track(gpx.tracks, tracks_points(gpx.tracks))], ..gpx }
}

/// The first of the files with the points of all of them, in the order of
/// the files, in one segment of one track.
pub open spec fn joined(files: Seq<GpxView>) -> GpxView {
    GpxView { tracks: seq![merged_track(files[0].tracks, files_points(files))], ..files[0] }
}

/// The values of the files of a list.
pub open spec fn gpx_views(files: Seq<Gpx>) -> Seq<GpxView> {
    files.map_values(|g: Gpx| g@)
}

/// Moves the points of the segments to the end of `points`.
fn take_segments(segments: Vec<TrackSegment>, points: &mut Vec<Waypoint>)
    ensures
        waypoint_views(final(points)@) == waypoint_views(old(points)@) + segments_points(
            track_segment_views(segments@),
        ),
{
    let mut rest: Vec<TrackSegment> = segments;
    while rest.len() > 0
        invariant
            waypoint_views(points@) + segments_points(track_segment_views(rest@)) == waypoint_views(
                old(points)@,
            ) + segments_points(track_segment_views(segments@)),
        decreases rest@.len(),
    {
        let ghost before = rest@;
        let ghost had = points@;
        let mut segment: TrackSegment = rest.remove(0);
        let ghost taken = segment.points@;
        points.append(&mut segment.points);
        proof {
            assert(track_segment_views(rest@) =~= track_segment_views(before).drop_first());
            assert(waypoint_views(points@) =~= waypoint_views(had) + waypoint_views(taken));
            assert((waypoint_views(had) + waypoint_views(taken)) + segments_points(
                track_segment_views(rest@),
            ) =~= waypoint_views(had) + (waypoint_views(taken) + segments_points(
                track_segment_views(rest@),
            )));
        }
    }
    proof {
        assert(waypoint_views(points@) + Seq::<WaypointView>::empty() =~= waypoint_views(points@));
    }
}

/// Moves the points of the tracks to the end of `points`.
fn take_tracks(tracks: Vec<Track>, points: &mut Vec<Waypoint>)
    ensures
        waypoint_views(final(points)@) == waypoint_views(old(points)@) + tracks_points(
            track_views(tracks@),
        ),
{
    let mut rest: Vec<Track> = tracks;
    while rest.len() > 0
        invariant
            waypoint_views(points@) + tracks_points(track_views(rest@)) == waypoint_views(
                old(points)@,
            ) + tracks_points(track_views(tracks@)),
        decreases rest@.len(),
    {
        let ghost before = rest@;
        let ghost had = waypoint_views(points@);
        let track: Track = rest.remove(0);
        let ghost taken = segments_points(track_segment_views(track.segments@));
        take_segments(track.segments, points);
        proof {
            assert(track_views(rest@) =~= track_views(before).drop_first());
            assert((had + taken) + tracks_points(track_views(rest@)) =~= had + (taken
                + tracks_points(track_views(rest@))));
        }
    }
    proof {
        assert(waypoint_views(points@) + Seq::<WaypointView>::empty() =~= waypoint_views(points@));
    }
}

impl Gpx {
    /// Does the file have one track, and that track one segment?
    pub fn is_single_track(&self) -> (single: bool)
        ensures
            single == single_track(self@),
    {
        self.tracks.len() == 1 && self.tracks[0].segments.len() == 1
    }

    /// Merges all the tracks and segments of the file into one segment of
    /// one track, which holds every point in the order in which the file
    /// held them and has the heading of the first track.
    pub fn into_single_track(self) -> (gpx: Gpx)
        ensures
            gpx@ == merged(self@),
            single_track(gpx@),
    {
        let mut gpx: Gpx = self;
        let mut tracks: Vec<Track> = Vec::new();
        core::mem::swap(&mut tracks, &mut gpx.tracks);
        let ghost all = track_views(tracks@);
        let mut head: Track = if tracks.len() > 0 {
            let ghost before = tracks@;
            let first: Track = tracks.remove(0);
            proof {
                assert(track_views(tracks@) =~= track_views(before).drop_first());
            }
            first
        } else {
            proof {
                assert(track_views(tracks@) =~= Seq::<TrackView>::empty());
            }
            Track::default()
        };
        let ghost heading = head@;
        let mut segments: Vec<TrackSegment> = Vec::new();
        core::mem::swap(&mut segments, &mut head.segments);
        let mut points: Vec<Waypoint> = Vec::new();
        proof {
            assert(waypoint_views(points@) =~= Seq::<WaypointView>::empty());
        }
        take_segments(segments, &mut points);
        take_tracks(tracks, &mut points);
        proof {
            let first = segments_points(heading.segments);
            let others = if all.len() > 0 {
                tracks_points(all.drop_first())
            } else {
                Seq::<WaypointView>::empty()
            };
            assert((Seq::<WaypointView>::empty() + first) + others =~= first + others);
        }
        let segment: TrackSegment = TrackSegment { points, extensions: None };
        head.segments.push(segment);
        proof {
            assert(track_segment_views(head.segments@) =~= seq![segment@]);
        }
        gpx.tracks.push(head);
        proof {
            assert(track_views(gpx.tracks@) =~= seq![head@]);
        }
        gpx
    }
}

/// Joins the files into one: the first of them, with the points of all of
/// them in one segment of one track, in the order of the files.
pub fn join_input_files(files: Vec<Gpx>) -> (gpx: Gpx)
    requires
        files@.len() > 0,
    ensures
        gpx@ == joined(gpx_views(files@)),
        single_track(gpx@),
{
    let mut rest: Vec<Gpx> = files;
    let ghost all = gpx_views(files@);
    let first: Gpx = rest.remove(0);
    proof {
        assert(gpx_views(rest@) =~= all.drop_first());
        assert(all[0] == first@);
    }
    let mut gpx: Gpx = first.into_single_track();
    let ghost whole = gpx@;
    let mut head: Track = gpx.tracks.remove(0);
    let ghost heading = head@;
    let segment: TrackSegment = head.segments.remove(0);
    let ghost first_segment = segment@;
    let mut points: Vec<Waypoint> = segment.points;
    proof {
        assert(track_segment_views(head.segments@) =~= Seq::<TrackSegmentView>::empty());
        assert(track_views(gpx.tracks@) =~= Seq::<TrackView>::empty());
        assert(heading == whole.tracks[0]);
        assert(first_segment == heading.segments[0]);
        assert(waypoint_views(points@) == tracks_points(all[0].tracks));
    }
    while rest.len() > 0
        invariant
            waypoint_views(points@) + files_points(gpx_views(rest@)) == files_points(all),
        decreases rest@.len(),
    {
        let ghost before = rest@;
        let ghost had = waypoint_views(points@);
        let other: Gpx = rest.remove(0);
        let ghost taken = tracks_points(other@.tracks);
        take_tracks(other.tracks, &mut points);
        proof {
            assert(gpx_views(rest@) =~= gpx_views(before).drop_first());
            assert((had + taken) + files_points(gpx_views(rest@)) =~= had + (taken + files_points(
                gpx_views(rest@),
            )));
        }
    }
    proof {
        assert(waypoint_views(points@) + Seq::<WaypointView>::empty() =~= waypoint_views(points@));
    }
    let merged_segment: TrackSegment = TrackSegment { points, extensions: None };
    head.segments.push(merged_segment);
    proof {
        assert(track_segment_views(head.segments@) =~= seq![merged_segment@]);
    }
    gpx.tracks.push(head);
    proof {
        assert(track_views(gpx.tracks@) =~= seq![head@]);
    }
    gpx
}

/// The number of points in the segments.
pub open spec fn count_points(tracks: Seq<TrackView>) -> nat {
    tracks_points(tracks).len()
}

impl Gpx {
    /// The number of points in the tracks of the file, held at `usize::MAX`.
    pub fn num_points(&self) -> (n: usize)
        ensures
            n == (if count_points(self@.tracks) > usize::MAX {
                usize::MAX as nat
            } else {
                count_points(self@.tracks)
            }),
    {
        let mut total: usize = 0;
        let tracks: usize = self.tracks.len();
        let ghost all = track_views(self.tracks@);
        let mut i: usize = tracks;
        proof {
            assert(all.skip(tracks as int) =~= Seq::<TrackView>::empty());
        }
        while i > 0
            invariant
                tracks == self.tracks@.len(),
                all == track_views(self.tracks@),
                i <= tracks,
                total == (if count_points(all.skip(i as int)) > usize::MAX {
                    usize::MAX as nat
                } else {
                    count_points(all.skip(i as int))
                }),
            decreases i,
        {
            i -= 1;
            let segments: &Vec<TrackSegment> = &self.tracks[i].segments;
            let ghost these = track_segment_views(segments@);
            let mut inner: usize = 0;
            let mut j: usize = segments.len();
            proof {
                assert(these.skip(j as int) =~= Seq::<TrackSegmentView>::empty());
            }
            while j > 0
                invariant
                    these == track_segment_views(segments@),
                    j <= segments@.len(),
                    inner == (if segments_points(these.skip(j as int)).len() > usize::MAX {
                        usize::MAX as nat
                    } else {
                        segments_points(these.skip(j as int)).len()
                    }),
                decreases j,
            {
                j -= 1;
                proof {
                    assert(these.skip(j as int).drop_first() =~= these.skip(j + 1));
                }
                inner = inner.saturating_add(segments[j].points.len());
            }
            proof {
                assert(these.skip(0) =~= these);
                assert(all.skip(i as int).drop_first() =~= all.skip(i + 1));
            }
            total = total.saturating_add(inner);
        }
        proof {
            assert(all.skip(0) =~= all);
        }
        total
    }
}

} // verus!
